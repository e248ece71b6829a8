//! Reading the arguments of an attribute such as `#[name]`,
//! `#[name = "value"]` or `#[name(a, "b", c)]`.
//!
//! An attribute is given by its syntax tree, with the parts that matter here:
//! paths by their segments, literals by their kind and text.

use vstd::prelude::*;
use vstd::string::StringExecFns;

verus! {

/// One segment of a path: its identifier, and whether it carries generic
/// arguments.
pub struct PathSegment {
    pub ident: String,
    pub has_arguments: bool,
}

/// A path such as `commands` or `a::b`.
pub struct MetaPath {
    pub segments: Vec<PathSegment>,
}

/// A literal: a string literal with its value, or any other literal with its
/// source text.
pub enum Lit {
    Str(String),
    Other(String),
}

/// A literal, by its text.
pub enum LitView {
    Str(Seq<char>),
    Other(Seq<char>),
}

impl Lit {
    /// The literal, by its text.
    pub open spec fn view(&self) -> LitView {
        match self {
            Lit::Str(s) => LitView::Str(s@),
            Lit::Other(s) => LitView::Other(s@),
        }
    }
}

/// An item in the argument list of an attribute.
pub enum NestedMeta {
    /// A literal, such as `"text"`.
    Lit(Lit),
    /// A path, such as `name`.
    Path(MetaPath),
    /// A list, such as `name(...)`, with its path.
    List(MetaPath),
    /// A name-value pair, such as `name = "text"`, with its path.
    NameValue(MetaPath),
}

/// The content of an attribute.
pub enum Meta {
    /// `#[path]`
    Path(MetaPath),
    /// `#[path(nested, ...)]`
    List { path: MetaPath, nested: Vec<NestedMeta> },
    /// `#[path = lit]`
    NameValue { path: MetaPath, lit: Lit },
}

/// The form an attribute was written in.
#[derive(Debug, Clone, Copy, PartialEq, Eq, Structural)]
pub enum ValueKind {
    /// `#[<name>]`
    Name,
    /// `#[<name> = <value>]`
    Equals,
    /// `#[<name>([<value>, <value>, <value>, ...])]`
    List,
    /// `#[<name>(<value>)]`
    SingleList,
}

/// An attribute's name, its values and the form it was written in.
pub struct Values {
    pub name: String,
    pub literals: Vec<Lit>,
    pub kind: ValueKind,
}

/// An attribute's values, by their texts.
pub struct ValuesView {
    pub name: Seq<char>,
    pub literals: Seq<LitView>,
    pub kind: ValueKind,
}

/// The texts of a list of literals.
pub open spec fn lits_view(lits: Seq<Lit>) -> Seq<LitView> {
    lits.map_values(|l: Lit| l@)
}

impl Values {
    /// The values, by their texts.
    pub open spec fn view(&self) -> ValuesView {
        ValuesView { name: self.name@, literals: lits_view(self.literals@), kind: self.kind }
    }

    /// Gathers an attribute's name, form and values.
    pub fn new(name: String, kind: ValueKind, literals: Vec<Lit>) -> (v: Self)
        ensures
            v.name == name,
            v.kind == kind,
            v.literals == literals,
    {
        Values { name, literals, kind }
    }
}

/// Why an attribute's values could not be read.
#[derive(Debug, Clone, Copy, PartialEq, Eq, Structural)]
pub enum ParseError {
    /// A path without segments.
    EmptyPath,
    /// A path of more than one segment.
    LongPath,
    /// A path whose segment carries arguments.
    PathArguments,
    /// An empty argument list.
    EmptyList,
    /// A list or name-value pair inside the argument list.
    NestedList,
}

impl ParseError {
    /// The error message shown to the macro's user.
    pub fn message(&self) -> (m: String)
        ensures
            m@ == spec_error_message(*self),
    {
        match self {
            ParseError::EmptyPath => String::from_str(
                "cannot convert an empty path to an identifier",
            ),
            ParseError::LongPath => String::from_str(
                "the path must not have more than one segment",
            ),
            ParseError::PathArguments => String::from_str(
                "the singular path segment must not have any arguments",
            ),
            ParseError::EmptyList => String::from_str("list cannot be empty"),
            ParseError::NestedList => String::from_str(
                "cannot nest a list; only accept literals and identifiers at this level",
            ),
        }
    }
}

/// The error message shown to the macro's user.
pub open spec fn spec_error_message(e: ParseError) -> Seq<char> {
    match e {
        ParseError::EmptyPath => "cannot convert an empty path to an identifier"@,
        ParseError::LongPath => "the path must not have more than one segment"@,
        ParseError::PathArguments => "the singular path segment must not have any arguments"@,
        ParseError::EmptyList => "list cannot be empty"@,
        ParseError::NestedList => "cannot nest a list; only accept literals and identifiers at this level"@,
    }
}

/// The identifier that a path consists of.
pub open spec fn spec_to_ident(p: MetaPath) -> Result<Seq<char>, ParseError> {
    if p.segments@.len() == 0 {
        Err(ParseError::EmptyPath)
    } else if p.segments@.len() > 1 {
        Err(ParseError::LongPath)
    } else if p.segments@[0].has_arguments {
        Err(ParseError::PathArguments)
    } else {
        Ok(p.segments@[0].ident@)
    }
}

/// The literal that an item of an argument list stands for.
pub open spec fn spec_nested_lit(n: NestedMeta) -> Result<LitView, ParseError> {
    match n {
        NestedMeta::Lit(l) => Ok(l@),
        NestedMeta::Path(p) => match spec_to_ident(p) {
            Ok(i) => Ok(LitView::Str(i)),
            Err(e) => Err(e),
        },
        NestedMeta::List(_) => Err(ParseError::NestedList),
        NestedMeta::NameValue(_) => Err(ParseError::NestedList),
    }
}

/// The literals of an argument list, or the error of its first bad item.
pub open spec fn spec_nested_lits(s: Seq<NestedMeta>) -> Result<Seq<LitView>, ParseError>
    decreases s.len(),
{
    if s.len() == 0 {
        Ok(Seq::empty())
    } else {
        match spec_nested_lits(s.drop_last()) {
            Err(e) => Err(e),
            Ok(lits) => match spec_nested_lit(s.last()) {
                Ok(l) => Ok(lits.push(l)),
                Err(e) => Err(e),
            },
        }
    }
}

/// The values of an attribute.
pub open spec fn spec_parse_values(attr: Meta) -> Result<ValuesView, ParseError> {
    match attr {
        Meta::Path(p) => match spec_to_ident(p) {
            Ok(name) => Ok(ValuesView { name, literals: Seq::empty(), kind: ValueKind::Name }),
            Err(e) => Err(e),
        },
        Meta::List { path, nested } => match spec_to_ident(path) {
            Err(e) => Err(e),
            Ok(name) => if nested@.len() == 0 {
                Err(ParseError::EmptyList)
            } else {
                match spec_nested_lits(nested@) {
                    Err(e) => Err(e),
                    Ok(lits) => Ok(
                        ValuesView {
                            name,
                            literals: lits,
                            kind: if lits.len() == 1 {
                                ValueKind::SingleList
                            } else {
                                ValueKind::List
                            },
                        },
                    ),
                }
            },
        },
        Meta::NameValue { path, lit } => match spec_to_ident(path) {
            Ok(name) => Ok(ValuesView { name, literals: seq![lit@], kind: ValueKind::Equals }),
            Err(e) => Err(e),
        },
    }
}

/// A copy of a literal.
fn copy_lit(l: &Lit) -> (r: Lit)
    ensures
        r@ == l@,
{
    match l {
        Lit::Str(s) => Lit::Str(String::from_str(s.as_str())),
        Lit::Other(s) => Lit::Other(String::from_str(s.as_str())),
    }
}

/// The identifier that a path consists of: the path must have exactly one
/// segment, without arguments.
pub fn to_ident(p: &MetaPath) -> (r: Result<String, ParseError>)
    ensures
        match spec_to_ident(*p) {
            Ok(i) => r matches Ok(s) && s@ == i,
            Err(e) => r == Err::<String, ParseError>(e),
        },
{
    if p.segments.len() == 0 {
        return Err(ParseError::EmptyPath);
    }
    if p.segments.len() > 1 {
        return Err(ParseError::LongPath);
    }
    if p.segments[0].has_arguments {
        return Err(ParseError::PathArguments);
    }
    Ok(String::from_str(p.segments[0].ident.as_str()))
}

/// The literal that an item of an argument list stands for: a literal is
/// kept, a path becomes the string of its identifier.
fn nested_lit(n: &NestedMeta) -> (r: Result<Lit, ParseError>)
    ensures
        match spec_nested_lit(*n) {
            Ok(l) => r matches Ok(x) && x@ == l,
            Err(e) => r == Err::<Lit, ParseError>(e),
        },
{
    match n {
        NestedMeta::Lit(l) => Ok(copy_lit(l)),
        NestedMeta::Path(p) => match to_ident(p) {
            Ok(i) => Ok(Lit::Str(i)),
            Err(e) => Err(e),
        },
        NestedMeta::List(_) => Err(ParseError::NestedList),
        NestedMeta::NameValue(_) => Err(ParseError::NestedList),
    }
}

/// Reads an attribute: its name, the form it was written in, and its values.
/// `#[name]` has no values, `#[name = lit]` has the one literal, and
/// `#[name(..)]` has the listed literals, with identifiers read as strings;
/// an empty list, or a list or name-value pair inside the list, is refused.
pub fn parse_values(attr: &Meta) -> (r: Result<Values, ParseError>)
    ensures
        match spec_parse_values(*attr) {
            Ok(v) => r matches Ok(x) && x@ == v,
            Err(e) => r matches Err(x) && x == e,
        },
{
    match attr {
        Meta::Path(path) => {
            let name = to_ident(path)?;
            let v = Values::new(name, ValueKind::Name, Vec::new());
            assert(lits_view(v.literals@) =~= Seq::empty());
            Ok(v)
        },
        Meta::List { path, nested } => {
            let name = to_ident(path)?;
            if nested.len() == 0 {
                return Err(ParseError::EmptyList);
            }
            let mut lits: Vec<Lit> = Vec::new();
            let n = nested.len();
            let mut i: usize = 0;
            assert(nested@.take(0) =~= Seq::<NestedMeta>::empty());
            assert(lits_view(lits@) =~= Seq::<LitView>::empty());
            while i < n
                invariant
                    n == nested.len(),
                    i <= n,
                    spec_to_ident(*path) is Ok,
                    n > 0,
                    *attr == (Meta::List { path: *path, nested: *nested }),
                    spec_nested_lits(nested@.take(i as int)) == Ok::<Seq<LitView>, ParseError>(
                        lits_view(lits@),
                    ),
                decreases n - i,
            {
                let ghost before = lits_view(lits@);
                assert(nested@.take(i + 1).drop_last() =~= nested@.take(i as int));
                assert(nested@.take(i + 1).last() == nested@[i as int]);
                match nested_lit(&nested[i]) {
                    Ok(l) => {
                        let ghost lv = l@;
                        assert(spec_nested_lits(nested@.take(i + 1)) == Ok::<
                            Seq<LitView>,
                            ParseError,
                        >(before.push(lv)));
                        lits.push(l);
                        assert(lits_view(lits@) =~= before.push(lv));
                    },
                    Err(e) => {
                        assert(spec_nested_lits(nested@.take(i + 1)) == Err::<
                            Seq<LitView>,
                            ParseError,
                        >(e));
                        proof {
                            lemma_nested_lits_error_sticks(nested@, i as int + 1);
                        }
                        return Err(e);
                    },
                }
                i = i + 1;
            }
            assert(nested@.take(n as int) =~= nested@);
            let kind = if lits.len() == 1 {
                ValueKind::SingleList
            } else {
                ValueKind::List
            };
            Ok(Values::new(name, kind, lits))
        },
        Meta::NameValue { path, lit } => {
            let name = to_ident(path)?;
            let mut lits: Vec<Lit> = Vec::new();
            lits.push(copy_lit(lit));
            assert(lits_view(lits@) =~= seq![lit@]);
            Ok(Values::new(name, ValueKind::Equals, lits))
        },
    }
}

/// Once a prefix of an argument list holds a bad item, the whole list
/// reports the error of the first one.
proof fn lemma_nested_lits_error_sticks(s: Seq<NestedMeta>, k: int)
    requires
        0 <= k <= s.len(),
        spec_nested_lits(s.take(k)) is Err,
    ensures
        spec_nested_lits(s) == spec_nested_lits(s.take(k)),
    decreases s.len() - k,
{
    if k < s.len() {
        assert(s.take(k + 1).drop_last() =~= s.take(k));
        lemma_nested_lits_error_sticks(s, k + 1);
    } else {
        assert(s.take(k) =~= s);
    }
}

/// The form of an attribute agrees with its number of values: no values for
/// `#[name]`, one for `#[name = value]` and `#[name(value)]`, and more than
/// one for any other list.
pub proof fn lemma_kind_matches_literal_count(attr: Meta)
    ensures
        spec_parse_values(attr) matches Ok(v) ==> {
            &&& v.kind == ValueKind::Name ==> v.literals.len() == 0
            &&& v.kind == ValueKind::Equals ==> v.literals.len() == 1
            &&& v.kind == ValueKind::SingleList ==> v.literals.len() == 1
            &&& v.kind == ValueKind::List ==> v.literals.len() > 1
        },
{
    if let Meta::List { path, nested } = attr {
        if nested@.len() > 0 {
            lemma_nested_lits_len(nested@);
        }
    }
}

/// A well-formed argument list has one literal per item.
proof fn lemma_nested_lits_len(s: Seq<NestedMeta>)
    ensures
        spec_nested_lits(s) matches Ok(l) ==> l.len() == s.len(),
    decreases s.len(),
{
    if s.len() > 0 {
        lemma_nested_lits_len(s.drop_last());
    }
}

} // verus!
