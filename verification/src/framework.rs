//! The command framework's attribute macros, by what they compute.
//!
//! `#[group]` on a struct declares a group of commands, `#[command]` on a
//! function declares a command with its permission checks, and `#[check]` on
//! a function declares a check. Each macro reads its attributes and derives
//! the names of the items it generates; emitting the tokens is left to the
//! macro's driver.

use vstd::prelude::*;
use vstd::string::StringExecFns;

use crate::values::{parse_values, spec_parse_values, Lit, LitView, Meta, ParseError, ValuesView};

verus! {

/// Why a macro refused its input.
pub enum MacroError {
    /// An attribute's values could not be read.
    Values(ParseError),
    /// An attribute that the macro does not know, by its name.
    UnknownAttribute(String),
    /// An attribute written without a value that the macro needs, by its
    /// name.
    MissingValue(String),
}

/// A macro error, by its texts.
pub enum MacroErrorView {
    Values(ParseError),
    UnknownAttribute(Seq<char>),
    MissingValue(Seq<char>),
}

impl MacroError {
    /// The error, by its texts.
    pub open spec fn view(&self) -> MacroErrorView {
        match self {
            MacroError::Values(e) => MacroErrorView::Values(*e),
            MacroError::UnknownAttribute(n) => MacroErrorView::UnknownAttribute(n@),
            MacroError::MissingValue(n) => MacroErrorView::MissingValue(n@),
        }
    }
}

/// The texts of a list of strings.
pub open spec fn strings_view(v: Seq<String>) -> Seq<Seq<char>> {
    v.map_values(|s: String| s@)
}

/// The values of the string literals among `lits`, in order.
pub open spec fn str_values(lits: Seq<LitView>) -> Seq<Seq<char>>
    decreases lits.len(),
{
    if lits.len() == 0 {
        Seq::empty()
    } else {
        let prev = str_values(lits.drop_last());
        match lits.last() {
            LitView::Str(s) => prev.push(s),
            LitView::Other(_) => prev,
        }
    }
}

/// Each of `names` followed by `suffix`.
pub open spec fn with_suffix(names: Seq<Seq<char>>, suffix: Seq<char>) -> Seq<Seq<char>> {
    names.map_values(|n: Seq<char>| n + suffix)
}

/// The values of the string literals among `lits`, in order.
fn collect_str_values(lits: &Vec<Lit>) -> (r: Vec<String>)
    ensures
        strings_view(r@) == str_values(crate::values::lits_view(lits@)),
{
    let mut r: Vec<String> = Vec::new();
    let n = lits.len();
    let mut i: usize = 0;
    assert(strings_view(r@) =~= Seq::<Seq<char>>::empty());
    assert(crate::values::lits_view(lits@.take(0)) =~= Seq::<LitView>::empty());
    while i < n
        invariant
            n == lits.len(),
            i <= n,
            strings_view(r@) == str_values(crate::values::lits_view(lits@.take(i as int))),
        decreases n - i,
    {
        let ghost before = strings_view(r@);
        assert(crate::values::lits_view(lits@.take(i + 1)).drop_last() =~= crate::values::lits_view(
            lits@.take(i as int),
        ));
        assert(crate::values::lits_view(lits@.take(i + 1)).last() == lits@[i as int]@);
        match &lits[i] {
            Lit::Str(s) => {
                r.push(String::from_str(s.as_str()));
                assert(strings_view(r@) =~= before.push(s@));
            },
            Lit::Other(_) => {},
        }
        i = i + 1;
    }
    assert(lits@.take(n as int) =~= lits@);
    r
}

/// Each of `names` followed by `suffix`.
fn add_suffix(names: &Vec<String>, suffix: &str) -> (r: Vec<String>)
    ensures
        strings_view(r@) == with_suffix(strings_view(names@), suffix@),
{
    let mut r: Vec<String> = Vec::new();
    let n = names.len();
    let mut i: usize = 0;
    while i < n
        invariant
            n == names.len(),
            i <= n,
            r.len() == i,
            forall|j: int| 0 <= j < i ==> #[trigger] r@[j]@ == names@[j]@ + suffix@,
        decreases n - i,
    {
        let s = String::from_str(names[i].as_str());
        r.push(s.concat(suffix));
        i = i + 1;
    }
    assert(strings_view(r@) =~= with_suffix(strings_view(names@), suffix@));
    r
}

/// What `#[group]` has read so far: the description and the declared
/// commands, by the names of their command structs and by their names.
pub struct GroupSpec {
    pub description: Seq<char>,
    pub command_structs: Seq<Seq<char>>,
    pub command_names: Seq<Seq<char>>,
}

/// `#[group]` reading one more attribute.
pub open spec fn spec_group_attr(st: GroupSpec, v: ValuesView) -> Result<GroupSpec, MacroErrorView> {
    if v.name == "commands"@ {
        let names = str_values(v.literals);
        Ok(
            GroupSpec {
                command_structs: st.command_structs + with_suffix(names, "_COMMAND_STRUCT"@),
                command_names: st.command_names + names,
                ..st
            },
        )
    } else if v.name == "description"@ {
        if v.literals.len() == 0 {
            Err(MacroErrorView::MissingValue(v.name))
        } else {
            match v.literals[0] {
                LitView::Str(d) => Ok(GroupSpec { description: d, ..st }),
                LitView::Other(_) => Ok(GroupSpec { description: Seq::empty(), ..st }),
            }
        }
    } else {
        Err(MacroErrorView::UnknownAttribute(v.name))
    }
}

/// `#[group]` reading its attributes in order, stopping at the first error.
pub open spec fn spec_group_attrs(attrs: Seq<Meta>) -> Result<GroupSpec, MacroErrorView>
    decreases attrs.len(),
{
    if attrs.len() == 0 {
        Ok(
            GroupSpec {
                description: Seq::empty(),
                command_structs: Seq::empty(),
                command_names: Seq::empty(),
            },
        )
    } else {
        match spec_group_attrs(attrs.drop_last()) {
            Err(e) => Err(e),
            Ok(st) => match spec_parse_values(attrs.last()) {
                Err(e) => Err(MacroErrorView::Values(e)),
                Ok(v) => spec_group_attr(st, v),
            },
        }
    }
}

/// What `#[group]` generates for a struct: the name of the group's static,
/// its description, and the declared commands, by the names of their command
/// structs and by their names, with their number.
pub struct GroupLayout {
    pub name_ext: String,
    pub description: String,
    pub command_structs: Vec<String>,
    pub command_names: Vec<String>,
    pub size: usize,
}

/// Reads the attributes of a `#[group]` struct named `name`, in order, and
/// stops at the first one it refuses.
fn read_group(name: &str, attrs: &Vec<Meta>) -> (r: Result<GroupLayout, MacroError>)
    ensures
        match spec_group_attrs(attrs@) {
            Ok(st) => r matches Ok(l) && {
                &&& l.name_ext@ == name@ + "_GROUP"@
                &&& l.description@ == st.description
                &&& strings_view(l.command_structs@) == st.command_structs
                &&& strings_view(l.command_names@) == st.command_names
                &&& l.size as int == st.command_structs.len()
            },
            Err(e) => r matches Err(x) && x@ == e,
        },
{
    let mut description = String::new();
    let mut command_structs: Vec<String> = Vec::new();
    let mut command_names: Vec<String> = Vec::new();
    let n = attrs.len();
    let mut i: usize = 0;
    assert(attrs@.take(0) =~= Seq::<Meta>::empty());
    assert(strings_view(command_structs@) =~= Seq::<Seq<char>>::empty());
    assert(strings_view(command_names@) =~= Seq::<Seq<char>>::empty());
    while i < n
        invariant
            n == attrs.len(),
            i <= n,
            spec_group_attrs(attrs@.take(i as int)) == Ok::<GroupSpec, MacroErrorView>(
                GroupSpec {
                    description: description@,
                    command_structs: strings_view(command_structs@),
                    command_names: strings_view(command_names@),
                },
            ),
        decreases n - i,
    {
        assert(attrs@.take(i + 1).drop_last() =~= attrs@.take(i as int));
        assert(attrs@.take(i + 1).last() == attrs@[i as int]);
        let val = match parse_values(&attrs[i]) {
            Ok(v) => v,
            Err(e) => {
                proof {
                    lemma_group_error_sticks(attrs@, i as int + 1);
                }
                return Err(MacroError::Values(e));
            },
        };
        if val.name == String::from_str("commands") {
            let names = collect_str_values(&val.literals);
            let mut structs = add_suffix(&names, "_COMMAND_STRUCT");
            let mut names = names;
            let ghost s0 = strings_view(command_structs@);
            let ghost n0 = strings_view(command_names@);
            let ghost s1 = strings_view(structs@);
            let ghost n1 = strings_view(names@);
            command_structs.append(&mut structs);
            command_names.append(&mut names);
            assert(strings_view(command_structs@) =~= s0 + s1);
            assert(strings_view(command_names@) =~= n0 + n1);
        } else if val.name == String::from_str("description") {
            if val.literals.len() == 0 {
                proof {
                    lemma_group_error_sticks(attrs@, i as int + 1);
                }
                return Err(MacroError::MissingValue(val.name));
            }
            match &val.literals[0] {
                Lit::Str(d) => {
                    description = String::from_str(d.as_str());
                },
                Lit::Other(_) => {
                    description = String::new();
                },
            }
        } else {
            proof {
                lemma_group_error_sticks(attrs@, i as int + 1);
            }
            return Err(MacroError::UnknownAttribute(val.name));
        }
        i = i + 1;
    }
    assert(attrs@.take(n as int) =~= attrs@);
    let name_ext = String::from_str(name).concat("_GROUP");
    let size = command_structs.len();
    Ok(GroupLayout { name_ext, description, command_structs, command_names, size })
}

/// Whether `#[group]` refuses these attributes, and with which error: the
/// first attribute that cannot be read, is unknown, or is a description
/// without a value.
pub fn group_error(attrs: &Vec<Meta>) -> (r: Option<MacroError>)
    ensures
        match spec_group_attrs(attrs@) {
            Ok(_) => r is None,
            Err(e) => r matches Some(x) && x@ == e,
        },
{
    match read_group("", attrs) {
        Ok(_) => None,
        Err(e) => Some(e),
    }
}

/// What `#[group]` generates for a struct named `name` whose attributes it
/// accepts (the macro refuses the others, see `group_error`): the group's
/// static is named `<name>_GROUP`; `commands(..)` lists the commands by name,
/// each command `c` found in `c_COMMAND_STRUCT`; `description(..)` sets the
/// description (to the empty string when its value is not a string); the
/// group's size is the number of commands listed.
pub fn group(name: &str, attrs: &Vec<Meta>) -> (l: GroupLayout)
    requires
        spec_group_attrs(attrs@) is Ok,
    ensures
        ({
            let st = spec_group_attrs(attrs@)->Ok_0;
            &&& l.name_ext@ == name@ + "_GROUP"@
            &&& l.description@ == st.description
            &&& strings_view(l.command_structs@) == st.command_structs
            &&& strings_view(l.command_names@) == st.command_names
            &&& l.size as int == st.command_structs.len()
        }),
{
    match read_group(name, attrs) {
        Ok(l) => l,
        Err(_) => {
            proof {
                assert(false);
            }
            GroupLayout {
                name_ext: String::new(),
                description: String::new(),
                command_structs: Vec::new(),
                command_names: Vec::new(),
                size: 0,
            }
        },
    }
}

/// Once `#[group]` has refused a prefix of its attributes, it refuses them
/// all with the same error.
proof fn lemma_group_error_sticks(attrs: Seq<Meta>, k: int)
    requires
        0 <= k <= attrs.len(),
        spec_group_attrs(attrs.take(k)) is Err,
    ensures
        spec_group_attrs(attrs) == spec_group_attrs(attrs.take(k)),
    decreases attrs.len() - k,
{
    if k < attrs.len() {
        assert(attrs.take(k + 1).drop_last() =~= attrs.take(k));
        lemma_group_error_sticks(attrs, k + 1);
    } else {
        assert(attrs.take(k) =~= attrs);
    }
}

/// What `#[command]` has read so far: the names of the check functions to
/// run, and the description.
pub struct CommandSpec {
    pub checks: Seq<Seq<char>>,
    pub description: Seq<char>,
}

/// `#[command]` reading one more attribute.
pub open spec fn spec_command_attr(st: CommandSpec, v: ValuesView) -> Result<
    CommandSpec,
    MacroErrorView,
> {
    if v.name == "checks"@ {
        Ok(
            CommandSpec {
                checks: st.checks + with_suffix(str_values(v.literals), "_CHECK"@),
                ..st
            },
        )
    } else if v.name == "description"@ {
        if v.literals.len() == 0 {
            Err(MacroErrorView::MissingValue(v.name))
        } else {
            match v.literals[0] {
                LitView::Str(d) => Ok(CommandSpec { description: d, ..st }),
                LitView::Other(_) => Ok(st),
            }
        }
    } else {
        Err(MacroErrorView::UnknownAttribute(v.name))
    }
}

/// `#[command]` reading its attributes in order, stopping at the first
/// error.
pub open spec fn spec_command_attrs(attrs: Seq<Meta>) -> Result<CommandSpec, MacroErrorView>
    decreases attrs.len(),
{
    if attrs.len() == 0 {
        Ok(CommandSpec { checks: Seq::empty(), description: Seq::empty() })
    } else {
        match spec_command_attrs(attrs.drop_last()) {
            Err(e) => Err(e),
            Ok(st) => match spec_parse_values(attrs.last()) {
                Err(e) => Err(MacroErrorView::Values(e)),
                Ok(v) => spec_command_attr(st, v),
            },
        }
    }
}

/// What `#[command]` generates for a function: the command's name, the
/// name of the wrapper function and of the command struct, the description,
/// and the check functions that the wrapper runs, in order.
pub struct CommandLayout {
    pub name_string: String,
    pub name_ext: String,
    pub name_struct: String,
    pub description: String,
    pub checks: Vec<String>,
}

/// Reads the attributes of a `#[command]` function named `name`, in order,
/// and stops at the first one it refuses.
fn read_command(name: &str, attrs: &Vec<Meta>) -> (r: Result<CommandLayout, MacroError>)
    ensures
        match spec_command_attrs(attrs@) {
            Ok(st) => r matches Ok(l) && {
                &&& l.name_string@ == name@
                &&& l.name_ext@ == name@ + "_COMMAND"@
                &&& l.name_struct@ == name@ + "_COMMAND_STRUCT"@
                &&& l.description@ == st.description
                &&& strings_view(l.checks@) == st.checks
            },
            Err(e) => r matches Err(x) && x@ == e,
        },
{
    let mut description = String::new();
    let mut checks: Vec<String> = Vec::new();
    let n = attrs.len();
    let mut i: usize = 0;
    assert(attrs@.take(0) =~= Seq::<Meta>::empty());
    assert(strings_view(checks@) =~= Seq::<Seq<char>>::empty());
    while i < n
        invariant
            n == attrs.len(),
            i <= n,
            spec_command_attrs(attrs@.take(i as int)) == Ok::<CommandSpec, MacroErrorView>(
                CommandSpec { checks: strings_view(checks@), description: description@ },
            ),
        decreases n - i,
    {
        assert(attrs@.take(i + 1).drop_last() =~= attrs@.take(i as int));
        assert(attrs@.take(i + 1).last() == attrs@[i as int]);
        let val = match parse_values(&attrs[i]) {
            Ok(v) => v,
            Err(e) => {
                proof {
                    lemma_command_error_sticks(attrs@, i as int + 1);
                }
                return Err(MacroError::Values(e));
            },
        };
        if val.name == String::from_str("checks") {
            let names = collect_str_values(&val.literals);
            let mut suffixed = add_suffix(&names, "_CHECK");
            let ghost c0 = strings_view(checks@);
            let ghost c1 = strings_view(suffixed@);
            checks.append(&mut suffixed);
            assert(strings_view(checks@) =~= c0 + c1);
        } else if val.name == String::from_str("description") {
            if val.literals.len() == 0 {
                proof {
                    lemma_command_error_sticks(attrs@, i as int + 1);
                }
                return Err(MacroError::MissingValue(val.name));
            }
            match &val.literals[0] {
                Lit::Str(d) => {
                    description = String::from_str(d.as_str());
                },
                Lit::Other(_) => {},
            }
        } else {
            proof {
                lemma_command_error_sticks(attrs@, i as int + 1);
            }
            return Err(MacroError::UnknownAttribute(val.name));
        }
        i = i + 1;
    }
    assert(attrs@.take(n as int) =~= attrs@);
    let name_string = String::from_str(name);
    let name_ext = String::from_str(name).concat("_COMMAND");
    let name_struct = String::from_str(name).concat("_COMMAND_STRUCT");
    Ok(CommandLayout { name_string, name_ext, name_struct, description, checks })
}

/// Whether `#[command]` refuses these attributes, and with which error: the
/// first attribute that cannot be read, is unknown, or is a description
/// without a value.
pub fn command_error(attrs: &Vec<Meta>) -> (r: Option<MacroError>)
    ensures
        match spec_command_attrs(attrs@) {
            Ok(_) => r is None,
            Err(e) => r matches Some(x) && x@ == e,
        },
{
    match read_command("", attrs) {
        Ok(_) => None,
        Err(e) => Some(e),
    }
}

/// What `#[command]` generates for a function named `name` whose
/// attributes it accepts (the macro refuses the others, see
/// `command_error`): `checks(..)` adds the checks to run, each `c` run
/// through `c_CHECK`, in the listed order (the generated wrapper hands them
/// to `run_checks`); `description(..)` sets the description (a value that is
/// not a string leaves it as it was). The wrapper is named `<name>_COMMAND`
/// and the command struct `<name>_COMMAND_STRUCT`.
pub fn command(name: &str, attrs: &Vec<Meta>) -> (l: CommandLayout)
    requires
        spec_command_attrs(attrs@) is Ok,
    ensures
        ({
            let st = spec_command_attrs(attrs@)->Ok_0;
            &&& l.name_string@ == name@
            &&& l.name_ext@ == name@ + "_COMMAND"@
            &&& l.name_struct@ == name@ + "_COMMAND_STRUCT"@
            &&& l.description@ == st.description
            &&& strings_view(l.checks@) == st.checks
        }),
{
    match read_command(name, attrs) {
        Ok(l) => l,
        Err(_) => {
            proof {
                assert(false);
            }
            CommandLayout {
                name_string: String::new(),
                name_ext: String::new(),
                name_struct: String::new(),
                description: String::new(),
                checks: Vec::new(),
            }
        },
    }
}

/// Once `#[command]` has refused a prefix of its attributes, it refuses them
/// all with the same error.
proof fn lemma_command_error_sticks(attrs: Seq<Meta>, k: int)
    requires
        0 <= k <= attrs.len(),
        spec_command_attrs(attrs.take(k)) is Err,
    ensures
        spec_command_attrs(attrs) == spec_command_attrs(attrs.take(k)),
    decreases attrs.len() - k,
{
    if k < attrs.len() {
        assert(attrs.take(k + 1).drop_last() =~= attrs.take(k));
        lemma_command_error_sticks(attrs, k + 1);
    } else {
        assert(attrs.take(k) =~= attrs);
    }
}

/// The name of the function that `#[check]` generates for the check
/// function `name`: `<name>_CHECK`.
pub fn check(name: &str) -> (r: String)
    ensures
        r@ == name@ + "_CHECK"@,
{
    String::from_str(name).concat("_CHECK")
}

/// Each command struct that `#[group]` declares is named after the command
/// it registers, one for one and in the same order, and the group's size is
/// the number of commands declared.
pub proof fn lemma_group_structs_follow_names(attrs: Seq<Meta>)
    ensures
        spec_group_attrs(attrs) matches Ok(st) ==> {
            &&& st.command_structs.len() == st.command_names.len()
            &&& forall|i: int|
                0 <= i < st.command_names.len() ==> #[trigger] st.command_structs[i]
                    == st.command_names[i] + "_COMMAND_STRUCT"@
        },
    decreases attrs.len(),
{
    if attrs.len() > 0 {
        lemma_group_structs_follow_names(attrs.drop_last());
        if let Ok(st) = spec_group_attrs(attrs.drop_last()) {
            if let Ok(v) = spec_parse_values(attrs.last()) {
                if let Ok(st2) = spec_group_attr(st, v) {
                    if v.name == "commands"@ {
                        let names = str_values(v.literals);
                        let suffixed = with_suffix(names, "_COMMAND_STRUCT"@);
                        assert forall|i: int|
                            0 <= i < st2.command_names.len() implies #[trigger] st2.command_structs[i]
                            == st2.command_names[i] + "_COMMAND_STRUCT"@ by {
                            if i >= st.command_names.len() {
                                assert(st2.command_structs[i] == suffixed[i - st.command_structs.len()]);
                            }
                        }
                    }
                }
            }
        }
    }
}

/// The names listed by the `commands(..)` attributes among `attrs`, in
/// order: the string values of each such attribute, one attribute after
/// another.
pub open spec fn commands_listed(attrs: Seq<Meta>) -> Seq<Seq<char>>
    decreases attrs.len(),
{
    if attrs.len() == 0 {
        Seq::empty()
    } else {
        let prev = commands_listed(attrs.drop_last());
        match spec_parse_values(attrs.last()) {
            Ok(v) => if v.name == "commands"@ {
                prev + str_values(v.literals)
            } else {
                prev
            },
            Err(_) => prev,
        }
    }
}

/// The check names listed by the `checks(..)` attributes among `attrs`, in
/// order.
pub open spec fn checks_listed(attrs: Seq<Meta>) -> Seq<Seq<char>>
    decreases attrs.len(),
{
    if attrs.len() == 0 {
        Seq::empty()
    } else {
        let prev = checks_listed(attrs.drop_last());
        match spec_parse_values(attrs.last()) {
            Ok(v) => if v.name == "checks"@ {
                prev + str_values(v.literals)
            } else {
                prev
            },
            Err(_) => prev,
        }
    }
}

/// Suffixing distributes over concatenation.
proof fn lemma_with_suffix_concat(a: Seq<Seq<char>>, b: Seq<Seq<char>>, x: Seq<char>)
    ensures
        with_suffix(a + b, x) == with_suffix(a, x) + with_suffix(b, x),
{
    assert(with_suffix(a + b, x) =~= with_suffix(a, x) + with_suffix(b, x));
}

/// The string values of a list of string literals are those strings, in
/// order; any other literal adds no value.
pub proof fn lemma_str_values_of_strings(lits: Seq<LitView>)
    ensures
        str_values(lits).len() <= lits.len(),
        (forall|i: int| 0 <= i < lits.len() ==> #[trigger] lits[i] is Str) ==> {
            &&& str_values(lits).len() == lits.len()
            &&& forall|i: int| 0 <= i < lits.len() ==> #[trigger] str_values(lits)[i] == lits[i]->Str_0
        },
        (forall|i: int| 0 <= i < lits.len() ==> #[trigger] lits[i] is Other) ==> str_values(lits).len() == 0,
    decreases lits.len(),
{
    if lits.len() > 0 {
        let d = lits.drop_last();
        lemma_str_values_of_strings(d);
        if forall|i: int| 0 <= i < lits.len() ==> #[trigger] lits[i] is Str {
            assert forall|i: int| 0 <= i < d.len() implies #[trigger] d[i] is Str by {
                assert(lits[i] is Str);
            }
        }
        if forall|i: int| 0 <= i < lits.len() ==> #[trigger] lits[i] is Other {
            assert forall|i: int| 0 <= i < d.len() implies #[trigger] d[i] is Other by {
                assert(lits[i] is Other);
            }
            assert(lits[lits.len() - 1] is Other);
        }
    }
}

/// A group registers exactly the commands that its `commands(..)`
/// attributes list, in order, whatever other attributes (such as the
/// description) stand between them; each has the command struct named after
/// it, and the description attribute changes nothing but the description.
pub proof fn lemma_group_collects_listed_commands(attrs: Seq<Meta>)
    ensures
        spec_group_attrs(attrs) matches Ok(st) ==> {
            &&& st.command_names == commands_listed(attrs)
            &&& st.command_structs == with_suffix(commands_listed(attrs), "_COMMAND_STRUCT"@)
        },
        forall|st: GroupSpec, v: ValuesView|
            v.name == "description"@ && #[trigger] spec_group_attr(st, v) is Ok ==> {
                &&& spec_group_attr(st, v)->Ok_0.command_names == st.command_names
                &&& spec_group_attr(st, v)->Ok_0.command_structs == st.command_structs
            },
    decreases attrs.len(),
{
    reveal_strlit("commands");
    reveal_strlit("description");
    assert("commands"@ != "description"@) by {
        assert("commands"@[0] != "description"@[0]);
    }
    if attrs.len() > 0 {
        lemma_group_collects_listed_commands(attrs.drop_last());
        if let Ok(st) = spec_group_attrs(attrs.drop_last()) {
            if let Ok(v) = spec_parse_values(attrs.last()) {
                if v.name == "commands"@ {
                    lemma_with_suffix_concat(
                        commands_listed(attrs.drop_last()),
                        str_values(v.literals),
                        "_COMMAND_STRUCT"@,
                    );
                }
            }
        }
    }
}

/// A command runs exactly the checks that its `checks(..)` attributes list,
/// in order, each through its `_CHECK` function; the description attribute
/// changes nothing but the description, and `checks(..)` leaves the
/// description alone.
pub proof fn lemma_command_collects_listed_checks(attrs: Seq<Meta>)
    ensures
        spec_command_attrs(attrs) matches Ok(st) ==> st.checks == with_suffix(
            checks_listed(attrs),
            "_CHECK"@,
        ),
        forall|st: CommandSpec, v: ValuesView|
            v.name == "description"@ && #[trigger] spec_command_attr(st, v) is Ok
                ==> spec_command_attr(st, v)->Ok_0.checks == st.checks,
        forall|st: CommandSpec, v: ValuesView|
            v.name == "checks"@ ==> (#[trigger] spec_command_attr(st, v) matches Ok(st2)
                && st2.description == st.description),
    decreases attrs.len(),
{
    reveal_strlit("checks");
    reveal_strlit("description");
    assert("checks"@ != "description"@) by {
        assert("checks"@[0] != "description"@[0]);
    }
    if attrs.len() > 0 {
        lemma_command_collects_listed_checks(attrs.drop_last());
        if let Ok(st) = spec_command_attrs(attrs.drop_last()) {
            if let Ok(v) = spec_parse_values(attrs.last()) {
                if v.name == "checks"@ {
                    lemma_with_suffix_concat(
                        checks_listed(attrs.drop_last()),
                        str_values(v.literals),
                        "_CHECK"@,
                    );
                }
            }
        }
    } else {
        assert(with_suffix(Seq::<Seq<char>>::empty(), "_CHECK"@) =~= Seq::<Seq<char>>::empty());
    }
}

} // verus!
