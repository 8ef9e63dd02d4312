//! The configuration model and the casing transform.

use heck::{ToKebabCase, ToLowerCamelCase, ToShoutySnakeCase, ToSnakeCase, ToUpperCamelCase};
use vstd::prelude::*;

verus! {

/// Where a directive stands: the index of its block, and its index inside the block.
#[derive(Debug, Clone, Copy, PartialEq, Eq, Structural)]
pub struct SourcePosition {
    pub block: usize,
    pub entry: usize,
}

/// An override of the name that a record type reports, with the place it was given at.
#[derive(Debug, Clone)]
pub struct TypeName {
    pub val: String,
    pub span: SourcePosition,
}

pub struct TypeNameModel {
    pub val: Seq<char>,
    pub span: SourcePosition,
}

impl View for TypeName {
    type V = TypeNameModel;

    open spec fn view(&self) -> TypeNameModel {
        TypeNameModel { val: self.val@, span: self.span }
    }
}

/// The naming conventions that field names can be rewritten into.
#[derive(Debug, Copy, Clone, PartialEq, Eq, Structural)]
pub enum RenameAll {
    LowerCase,
    SnakeCase,
    UpperCase,
    ScreamingSnakeCase,
    KebabCase,
    CamelCase,
    PascalCase,
}

/// The directives given on a record type.
#[derive(Debug, Clone)]
pub struct ContainerAttributes {
    pub transparent: bool,
    pub type_name_override: Option<TypeName>,
    pub rename_all: Option<RenameAll>,
    pub possible_prefix: Vec<String>,
    pub possible_separator: Vec<String>,
}

pub struct ContainerModel {
    pub transparent: bool,
    pub type_name_override: Option<TypeNameModel>,
    pub rename_all: Option<RenameAll>,
    pub possible_prefix: Seq<Seq<char>>,
    pub possible_separator: Seq<Seq<char>>,
}

/// The directives given on one field: `try_from` holds the intermediate type's identifier.
#[derive(Debug, Clone)]
pub struct ChildAttributes {
    pub alias: Option<String>,
    pub default: bool,
    pub flatten: bool,
    pub try_from: Option<String>,
}

pub struct ChildModel {
    pub alias: Option<Seq<char>>,
    pub default: bool,
    pub flatten: bool,
    pub try_from: Option<Seq<char>>,
}

/// The text of each string of a sequence, in order.
pub open spec fn texts(v: Seq<String>) -> Seq<Seq<char>> {
    Seq::new(v.len(), |i: int| v[i]@)
}

pub open spec fn text_of(s: Option<String>) -> Option<Seq<char>> {
    match s {
        Some(t) => Some(t@),
        None => None,
    }
}

impl View for ContainerAttributes {
    type V = ContainerModel;

    open spec fn view(&self) -> ContainerModel {
        ContainerModel {
            transparent: self.transparent,
            type_name_override: match self.type_name_override {
                Some(t) => Some(t@),
                None => None,
            },
            rename_all: self.rename_all,
            possible_prefix: texts(self.possible_prefix@),
            possible_separator: texts(self.possible_separator@),
        }
    }
}

impl View for ChildAttributes {
    type V = ChildModel;

    open spec fn view(&self) -> ChildModel {
        ChildModel {
            alias: text_of(self.alias),
            default: self.default,
            flatten: self.flatten,
            try_from: text_of(self.try_from),
        }
    }
}

/// What `str::to_lowercase` returns for a text.
pub uninterp spec fn lower_case_text(s: Seq<char>) -> Seq<char>;

/// What `str::to_uppercase` returns for a text.
pub uninterp spec fn upper_case_text(s: Seq<char>) -> Seq<char>;

/// What heck's `to_snake_case` returns for a text.
pub uninterp spec fn snake_case_text(s: Seq<char>) -> Seq<char>;

/// What heck's `to_shouty_snake_case` returns for a text.
pub uninterp spec fn shouty_snake_case_text(s: Seq<char>) -> Seq<char>;

/// What heck's `to_kebab_case` returns for a text.
pub uninterp spec fn kebab_case_text(s: Seq<char>) -> Seq<char>;

/// What heck's `to_lower_camel_case` returns for a text.
pub uninterp spec fn lower_camel_case_text(s: Seq<char>) -> Seq<char>;

/// What heck's `to_upper_camel_case` returns for a text.
pub uninterp spec fn upper_camel_case_text(s: Seq<char>) -> Seq<char>;

/// Calls `str::to_lowercase`; trusted to return the lower-case text of its argument,
/// which depends on the argument alone.
#[verifier::external_body]
fn lower_case(s: &str) -> (r: String)
    ensures
        r@ == lower_case_text(s@),
{
    s.to_lowercase()
}

/// Calls `str::to_uppercase`; trusted to return the upper-case text of its argument,
/// which depends on the argument alone.
#[verifier::external_body]
fn upper_case(s: &str) -> (r: String)
    ensures
        r@ == upper_case_text(s@),
{
    s.to_uppercase()
}

/// Calls heck's `ToSnakeCase::to_snake_case` on a `str`; trusted to be a function of
/// the text alone.
#[verifier::external_body]
fn snake_case(s: &str) -> (r: String)
    ensures
        r@ == snake_case_text(s@),
{
    s.to_snake_case()
}

/// Calls heck's `ToShoutySnakeCase::to_shouty_snake_case` on a `str`; trusted to be a
/// function of the text alone.
#[verifier::external_body]
fn shouty_snake_case(s: &str) -> (r: String)
    ensures
        r@ == shouty_snake_case_text(s@),
{
    s.to_shouty_snake_case()
}

/// Calls heck's `ToKebabCase::to_kebab_case` on a `str`; trusted to be a function of
/// the text alone.
#[verifier::external_body]
fn kebab_case(s: &str) -> (r: String)
    ensures
        r@ == kebab_case_text(s@),
{
    s.to_kebab_case()
}

/// Calls heck's `ToLowerCamelCase::to_lower_camel_case` on a `str`; trusted to be a
/// function of the text alone.
#[verifier::external_body]
fn lower_camel_case(s: &str) -> (r: String)
    ensures
        r@ == lower_camel_case_text(s@),
{
    s.to_lower_camel_case()
}

/// Calls heck's `ToUpperCamelCase::to_upper_camel_case` on a `str`; trusted to be a
/// function of the text alone.
#[verifier::external_body]
fn upper_camel_case(s: &str) -> (r: String)
    ensures
        r@ == upper_camel_case_text(s@),
{
    s.to_upper_camel_case()
}

/// An identifier rewritten into a naming convention. The empty text stays empty.
pub open spec fn renamed(s: Seq<char>, pattern: RenameAll) -> Seq<char> {
    if s.len() == 0 {
        Seq::empty()
    } else {
        match pattern {
            RenameAll::LowerCase => lower_case_text(s),
            RenameAll::SnakeCase => snake_case_text(s),
            RenameAll::UpperCase => upper_case_text(s),
            RenameAll::ScreamingSnakeCase => shouty_snake_case_text(s),
            RenameAll::KebabCase => kebab_case_text(s),
            RenameAll::CamelCase => lower_camel_case_text(s),
            RenameAll::PascalCase => upper_camel_case_text(s),
        }
    }
}

/// Rewrites an identifier into the given naming convention. Total: no identifier is
/// refused, and the empty identifier gives the empty text.
pub fn rename_all(s: &str, pattern: RenameAll) -> (r: String)
    ensures
        r@ == renamed(s@, pattern),
        s@.len() == 0 ==> r@.len() == 0,
{
    if s.unicode_len() == 0 {
        return String::new();
    }
    match pattern {
        RenameAll::LowerCase => lower_case(s),
        RenameAll::SnakeCase => snake_case(s),
        RenameAll::UpperCase => upper_case(s),
        RenameAll::ScreamingSnakeCase => shouty_snake_case(s),
        RenameAll::KebabCase => kebab_case(s),
        RenameAll::CamelCase => lower_camel_case(s),
        RenameAll::PascalCase => upper_camel_case(s),
    }
}

/// Whether two texts are the same.
pub fn same_text(a: &str, b: &str) -> (r: bool)
    ensures
        r == (a@ == b@),
{
    let n: usize = a.unicode_len();
    if n != b.unicode_len() {
        return false;
    }
    let mut i: usize = 0;
    while i < n
        invariant
            n == a@.len(),
            n == b@.len(),
            i <= n,
            forall|k: int| 0 <= k < i ==> a@[k] == b@[k],
        decreases n - i,
    {
        if a.get_char(i) != b.get_char(i) {
            return false;
        }
        i = i + 1;
    }
    assert(a@ =~= b@);
    true
}

} // verus!
