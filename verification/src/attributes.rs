//! The directive parser: raw directive blocks in, the configuration model out.

use crate::types::{
    same_text, ChildAttributes, ChildModel, ContainerAttributes, ContainerModel, RenameAll,
    SourcePosition, TypeName, TypeNameModel, texts,
};
use vstd::prelude::*;

verus! {

/// One entry of a list-valued directive: a string literal, or anything else.
#[derive(Debug, Clone)]
pub enum ListItem {
    Text(String),
    Other,
}

/// One raw directive entry of a block.
#[derive(Debug, Clone)]
pub enum Directive {
    /// A bare key, such as `flatten`.
    Flag { name: String },
    /// A key with a string value, such as `alias = "id"`.
    Text { name: String, value: String },
    /// A key with a value that is no string.
    Value { name: String },
    /// A key with a list of entries, such as `possible_prefix("a", "b")`.
    List { name: String, items: Vec<ListItem> },
    /// A literal where a key was expected.
    Literal,
}

/// What stands behind the name of a block.
#[derive(Debug, Clone)]
pub enum AttributeBody {
    /// A list of directive entries.
    List(Vec<Directive>),
    /// A bare name or a single value: it holds no directive.
    Plain,
    /// Text that is no directive block at all, and the words it was refused in.
    Malformed { message: String },
}

/// One block of raw directives, under the name it was written with.
#[derive(Debug, Clone)]
pub struct Attribute {
    pub name: String,
    pub body: AttributeBody,
}

#[derive(Debug, Clone, Copy, PartialEq, Eq, Structural)]
pub enum ConfigErrorKind {
    /// A directive that may be given once was given again.
    DuplicateDirective,
    /// An unknown key, or a known key in a shape it does not take.
    UnrecognizedDirective,
    /// A known key with a value outside its domain.
    InvalidDirectiveValue,
}

/// The first fault found in a set of directive blocks: its kind, the entry it was
/// found at, and the message that is shown for it.
#[derive(Debug, Clone, PartialEq, Eq)]
pub struct ConfigError {
    pub kind: ConfigErrorKind,
    pub at: SourcePosition,
    pub message: String,
}

/// A fault as the contracts speak of it. The message is `None` where the words are
/// those of the parser that refused an intermediate type.
pub struct ConfigFault {
    pub kind: ConfigErrorKind,
    pub at: SourcePosition,
    pub message: Option<Seq<char>>,
}

impl ConfigError {
    /// The fault in words.
    pub fn message(&self) -> (r: String)
        ensures
            r@ == self.message@,
    {
        self.message.clone()
    }

    /// Whether this error is the given fault: the same kind at the same entry, with
    /// the fault's message where it fixes one.
    pub open spec fn reports(&self, fault: ConfigFault) -> bool {
        &&& self.kind == fault.kind
        &&& self.at == fault.at
        &&& fault.message matches Some(text) ==> self.message@ == text
    }
}

/// A directive that may be given once was given again.
pub open spec fn duplicate(at: SourcePosition) -> ConfigFault {
    ConfigFault {
        kind: ConfigErrorKind::DuplicateDirective,
        at,
        message: Some("duplicate attribute"@),
    }
}

/// An unknown key, or a known key in a shape it does not take.
pub open spec fn unrecognized(at: SourcePosition) -> ConfigFault {
    ConfigFault {
        kind: ConfigErrorKind::UnrecognizedDirective,
        at,
        message: Some("unexpected mapping attribute"@),
    }
}

/// A naming convention that is none of the seven.
pub open spec fn invalid_casing(at: SourcePosition) -> ConfigFault {
    ConfigFault {
        kind: ConfigErrorKind::InvalidDirectiveValue,
        at,
        message: Some("unexpected value for rename_all"@),
    }
}

/// An intermediate type that is no identifier, refused in the given words.
pub open spec fn invalid_identifier(at: SourcePosition, words: Option<Seq<char>>) -> ConfigFault {
    ConfigFault { kind: ConfigErrorKind::InvalidDirectiveValue, at, message: words }
}

/// A block that holds no directives at all, refused in the given words.
pub open spec fn malformed(at: SourcePosition, words: Seq<char>) -> ConfigFault {
    ConfigFault { kind: ConfigErrorKind::UnrecognizedDirective, at, message: Some(words) }
}

fn duplicate_error(at: SourcePosition) -> (r: ConfigError)
    ensures
        r.reports(duplicate(at)),
{
    ConfigError {
        kind: ConfigErrorKind::DuplicateDirective,
        at,
        message: String::from_str("duplicate attribute"),
    }
}

fn unrecognized_error(at: SourcePosition) -> (r: ConfigError)
    ensures
        r.reports(unrecognized(at)),
{
    ConfigError {
        kind: ConfigErrorKind::UnrecognizedDirective,
        at,
        message: String::from_str("unexpected mapping attribute"),
    }
}

fn invalid_casing_error(at: SourcePosition) -> (r: ConfigError)
    ensures
        r.reports(invalid_casing(at)),
{
    ConfigError {
        kind: ConfigErrorKind::InvalidDirectiveValue,
        at,
        message: String::from_str("unexpected value for rename_all"),
    }
}

pub open spec fn position(block: int, entry: int) -> SourcePosition {
    SourcePosition { block: block as usize, entry: entry as usize }
}

/// The name under which a block holds directives of this library.
pub open spec fn block_name() -> Seq<char> {
    "mapping"@
}

/// The naming convention that a literal stands for, if any.
pub open spec fn casing_tag(text: Seq<char>) -> Option<RenameAll> {
    if text == "lowercase"@ {
        Some(RenameAll::LowerCase)
    } else if text == "snake_case"@ {
        Some(RenameAll::SnakeCase)
    } else if text == "UPPERCASE"@ {
        Some(RenameAll::UpperCase)
    } else if text == "SCREAMING_SNAKE_CASE"@ {
        Some(RenameAll::ScreamingSnakeCase)
    } else if text == "kebab-case"@ {
        Some(RenameAll::KebabCase)
    } else if text == "camelCase"@ {
        Some(RenameAll::CamelCase)
    } else if text == "PascalCase"@ {
        Some(RenameAll::PascalCase)
    } else {
        None
    }
}

/// Reads a naming convention from its literal.
pub fn parse_casing_tag(text: &str) -> (r: Option<RenameAll>)
    ensures
        r == casing_tag(text@),
{
    if same_text(text, "lowercase") {
        Some(RenameAll::LowerCase)
    } else if same_text(text, "snake_case") {
        Some(RenameAll::SnakeCase)
    } else if same_text(text, "UPPERCASE") {
        Some(RenameAll::UpperCase)
    } else if same_text(text, "SCREAMING_SNAKE_CASE") {
        Some(RenameAll::ScreamingSnakeCase)
    } else if same_text(text, "kebab-case") {
        Some(RenameAll::KebabCase)
    } else if same_text(text, "camelCase") {
        Some(RenameAll::CamelCase)
    } else if same_text(text, "PascalCase") {
        Some(RenameAll::PascalCase)
    } else {
        None
    }
}

/// The string literals among the entries of a list, in order; the others are dropped.
pub open spec fn kept_texts(items: Seq<ListItem>) -> Seq<Seq<char>>
    decreases items.len(),
{
    if items.len() == 0 {
        Seq::empty()
    } else {
        let rest = kept_texts(items.drop_last());
        match items.last() {
            ListItem::Text(s) => rest.push(s@),
            ListItem::Other => rest,
        }
    }
}

/// Appends the string literals of a list to what was collected before.
pub fn extend_with_texts(target: Vec<String>, items: &Vec<ListItem>) -> (r: Vec<String>)
    ensures
        texts(r@) == texts(target@) + kept_texts(items@),
{
    let mut out = target;
    let mut k: usize = 0;
    assert(items@.take(0) =~= Seq::<ListItem>::empty());
    assert(texts(out@) =~= texts(target@) + kept_texts(items@.take(0)));
    while k < items.len()
        invariant
            k <= items.len(),
            texts(out@) == texts(target@) + kept_texts(items@.take(k as int)),
        decreases items.len() - k,
    {
        let ghost before = out@;
        proof {
            assert(items@.take(k + 1).drop_last() =~= items@.take(k as int));
            assert(items@.take(k + 1).last() == items@[k as int]);
        }
        match &items[k] {
            ListItem::Text(s) => {
                out.push(s.clone());
                assert(texts(out@) =~= texts(before).push(s@));
                assert(texts(out@) =~= texts(target@) + kept_texts(items@.take(k + 1)));
            },
            ListItem::Other => {},
        }
        k = k + 1;
    }
    assert(items@.take(items.len() as int) =~= items@);
    out
}

/// The type-level directives before any block was read.
pub open spec fn no_container_directives() -> ContainerModel {
    ContainerModel {
        transparent: false,
        type_name_override: None,
        rename_all: None,
        possible_prefix: Seq::empty(),
        possible_separator: Seq::empty(),
    }
}

/// The type-level directives after one more entry, or the fault that the entry is.
pub open spec fn container_step(st: ContainerModel, d: Directive, at: SourcePosition) -> Result<
    ContainerModel,
    ConfigFault,
> {
    match d {
        Directive::Flag { name } => if name@ == "transparent"@ {
            if st.transparent {
                Err(duplicate(at))
            } else {
                Ok(ContainerModel { transparent: true, ..st })
            }
        } else {
            Err(unrecognized(at))
        },
        Directive::Text { name, value } => if name@ == "rename_all"@ {
            match casing_tag(value@) {
                None => Err(invalid_casing(at)),
                Some(tag) => if st.rename_all.is_some() {
                    Err(duplicate(at))
                } else {
                    Ok(ContainerModel { rename_all: Some(tag), ..st })
                },
            }
        } else if name@ == "type_name"@ {
            if st.type_name_override.is_some() {
                Err(duplicate(at))
            } else {
                Ok(
                    ContainerModel {
                        type_name_override: Some(TypeNameModel { val: value@, span: at }),
                        ..st
                    },
                )
            }
        } else {
            Err(unrecognized(at))
        },
        Directive::List { name, items } => if name@ == "possible_prefix"@ {
            Ok(ContainerModel { possible_prefix: st.possible_prefix + kept_texts(items@), ..st })
        } else if name@ == "possible_separator"@ {
            Ok(
                ContainerModel {
                    possible_separator: st.possible_separator + kept_texts(items@),
                    ..st
                },
            )
        } else {
            Err(unrecognized(at))
        },
        Directive::Value { name } => Err(unrecognized(at)),
        Directive::Literal => Err(unrecognized(at)),
    }
}

/// The type-level directives after the entries of one block from `from` on, read in
/// order up to the first fault.
pub open spec fn container_entries(
    st: ContainerModel,
    entries: Seq<Directive>,
    block: int,
    from: int,
) -> Result<ContainerModel, ConfigFault>
    decreases entries.len() - from,
{
    if from < 0 || from >= entries.len() {
        Ok(st)
    } else {
        match container_step(st, entries[from], position(block, from)) {
            Err(e) => Err(e),
            Ok(next) => container_entries(next, entries, block, from + 1),
        }
    }
}

/// The type-level directives after one block. A block under another name is skipped
/// unread, and one that holds no list of entries changes nothing.
pub open spec fn container_block(st: ContainerModel, a: Attribute, block: int) -> Result<
    ContainerModel,
    ConfigFault,
> {
    if a.name@ != block_name() {
        Ok(st)
    } else {
        match a.body {
            AttributeBody::Malformed { message } => Err(malformed(position(block, 0), message@)),
            AttributeBody::Plain => Ok(st),
            AttributeBody::List(entries) => container_entries(st, entries@, block, 0),
        }
    }
}

pub open spec fn container_blocks(st: ContainerModel, input: Seq<Attribute>, from: int) -> Result<
    ContainerModel,
    ConfigFault,
>
    decreases input.len() - from,
{
    if from < 0 || from >= input.len() {
        Ok(st)
    } else {
        match container_block(st, input[from], from) {
            Err(e) => Err(e),
            Ok(next) => container_blocks(next, input, from + 1),
        }
    }
}

/// What parsing the blocks of a record type gives: its directives, or the first fault.
pub open spec fn parsed_container(input: Seq<Attribute>) -> Result<ContainerModel, ConfigFault> {
    container_blocks(no_container_directives(), input, 0)
}

/// Whether a result of the parser is the one that the model expects.
pub open spec fn is_container_result(
    r: Result<ContainerAttributes, ConfigError>,
    expected: Result<ContainerModel, ConfigFault>,
) -> bool {
    match expected {
        Ok(m) => r matches Ok(c) && c@ == m,
        Err(e) => r matches Err(x) && x.reports(e),
    }
}

/// Takes one entry into the type-level directives read so far.
pub fn apply_container_directive(acc: ContainerAttributes, d: &Directive, at: SourcePosition) -> (r:
    Result<ContainerAttributes, ConfigError>)
    ensures
        is_container_result(r, container_step(acc@, *d, at)),
{
    let mut acc = acc;
    match d {
        Directive::Flag { name } => {
            if same_text(name.as_str(), "transparent") {
                if acc.transparent {
                    return Err(duplicate_error(at));
                }
                acc.transparent = true;
                Ok(acc)
            } else {
                Err(unrecognized_error(at))
            }
        },
        Directive::Text { name, value } => {
            if same_text(name.as_str(), "rename_all") {
                match parse_casing_tag(value.as_str()) {
                    None => Err(invalid_casing_error(at)),
                    Some(tag) => {
                        if acc.rename_all.is_some() {
                            return Err(
                                duplicate_error(at),
                            );
                        }
                        acc.rename_all = Some(tag);
                        Ok(acc)
                    },
                }
            } else if same_text(name.as_str(), "type_name") {
                if acc.type_name_override.is_some() {
                    return Err(duplicate_error(at));
                }
                acc.type_name_override = Some(TypeName { val: value.clone(), span: at });
                Ok(acc)
            } else {
                Err(unrecognized_error(at))
            }
        },
        Directive::List { name, items } => {
            if same_text(name.as_str(), "possible_prefix") {
                acc.possible_prefix = extend_with_texts(acc.possible_prefix, items);
                Ok(acc)
            } else if same_text(name.as_str(), "possible_separator") {
                acc.possible_separator = extend_with_texts(acc.possible_separator, items);
                Ok(acc)
            } else {
                Err(unrecognized_error(at))
            }
        },
        Directive::Value { name } => Err(
            unrecognized_error(at),
        ),
        Directive::Literal => Err(unrecognized_error(at)),
    }
}

/// Parses the directive blocks of a record type. Blocks are read in order, and so are
/// the entries of each; the first fault ends the parse and is the result.
pub fn parse_container_attributes(input: &[Attribute]) -> (r: Result<ContainerAttributes, ConfigError>)
    ensures
        is_container_result(r, parsed_container(input@)),
{
    let mut acc = ContainerAttributes {
        transparent: false,
        type_name_override: None,
        rename_all: None,
        possible_prefix: Vec::new(),
        possible_separator: Vec::new(),
    };
    assert(acc@.possible_prefix =~= Seq::<Seq<char>>::empty());
    assert(acc@.possible_separator =~= Seq::<Seq<char>>::empty());
    let mut i: usize = 0;
    while i < input.len()
        invariant
            i <= input.len(),
            parsed_container(input@) == container_blocks(acc@, input@, i as int),
        decreases input.len() - i,
    {
        let attr = &input[i];
        if same_text(attr.name.as_str(), "mapping") {
            match &attr.body {
                AttributeBody::Malformed { message } => {
                    return Err(
                        ConfigError {
                            kind: ConfigErrorKind::UnrecognizedDirective,
                            at: SourcePosition { block: i, entry: 0 },
                            message: message.clone(),
                        },
                    );
                },
                AttributeBody::Plain => {},
                AttributeBody::List(entries) => {
                    let ghost start = acc@;
                    let mut j: usize = 0;
                    while j < entries.len()
                        invariant
                            j <= entries.len(),
                            i < input.len(),
                            input@[i as int].name@ == block_name(),
                            input@[i as int].body == AttributeBody::List(*entries),
                            parsed_container(input@) == container_blocks(start, input@, i as int),
                            container_entries(start, entries@, i as int, 0) == container_entries(
                                acc@,
                                entries@,
                                i as int,
                                j as int,
                            ),
                        decreases entries.len() - j,
                    {
                        let at = SourcePosition { block: i, entry: j };
                        match apply_container_directive(acc, &entries[j], at) {
                            Err(e) => {
                                return Err(e);
                            },
                            Ok(next) => {
                                acc = next;
                            },
                        }
                        j = j + 1;
                    }
                },
            }
        }
        i = i + 1;
    }
    Ok(acc)
}

/// The error of the syn crate, carried through unread.
#[verifier::external_type_specification]
#[verifier::external_body]
pub struct ExSynError(syn::Error);

/// The identifier that syn reads from a text, or `None` where syn refuses the text.
pub uninterp spec fn type_identifier(text: Seq<char>) -> Option<Seq<char>>;

/// Calls syn's `LitStr::parse` for an `Ident` on a string literal of the given text.
/// Trusted: the outcome depends on the text alone, so it is the named one.
#[verifier::external_body]
fn parse_identifier(text: &str) -> (r: Result<String, syn::Error>)
    ensures
        match r {
            Ok(id) => type_identifier(text@) == Some(id@),
            Err(_) => type_identifier(text@).is_none(),
        },
{
    match syn::LitStr::new(text, proc_macro2::Span::call_site()).parse::<proc_macro2::Ident>() {
        Ok(id) => Ok(id.to_string()),
        Err(e) => Err(e),
    }
}

/// Calls `to_string` on a syn error, which gives the message of the error. Nothing
/// is claimed of the text.
#[verifier::external_body]
fn fault_text(e: &syn::Error) -> (r: String) {
    e.to_string()
}

/// Reads a type identifier from a text; where the text is none, the result is the
/// message that the parser refused it with.
pub fn read_type_identifier(text: &str) -> (r: Result<String, String>)
    ensures
        match r {
            Ok(id) => type_identifier(text@) == Some(id@),
            Err(_) => type_identifier(text@).is_none(),
        },
{
    match parse_identifier(text) {
        Ok(id) => Ok(id),
        Err(e) => Err(fault_text(&e)),
    }
}

/// What reading an intermediate type gave, as the contracts speak of it.
pub open spec fn read_outcome(parsed: Result<String, String>) -> Result<Seq<char>, Seq<char>> {
    match parsed {
        Ok(id) => Ok(id@),
        Err(words) => Err(words@),
    }
}

/// The field-level directives before any block was read.
pub open spec fn no_child_directives() -> ChildModel {
    ChildModel { alias: None, default: false, flatten: false, try_from: None }
}

/// The field-level directives after an intermediate type was read from an entry:
/// a second one is a duplicate, and a text that names no type is an invalid value.
pub open spec fn with_try_from(
    st: ChildModel,
    parsed: Result<Seq<char>, Seq<char>>,
    at: SourcePosition,
) -> Result<ChildModel, ConfigFault> {
    if st.try_from.is_some() {
        Err(duplicate(at))
    } else {
        match parsed {
            Ok(id) => Ok(ChildModel { try_from: Some(id), ..st }),
            Err(words) => Err(invalid_identifier(at, Some(words))),
        }
    }
}

/// The field-level directives after one more entry, or the fault that the entry is.
pub open spec fn child_step(st: ChildModel, d: Directive, at: SourcePosition) -> Result<
    ChildModel,
    ConfigFault,
> {
    match d {
        Directive::Text { name, value } => if name@ == "alias"@ {
            if st.alias.is_some() {
                Err(duplicate(at))
            } else {
                Ok(ChildModel { alias: Some(value@), ..st })
            }
        } else if name@ == "try_from"@ {
            if st.try_from.is_some() {
                Err(duplicate(at))
            } else {
                match type_identifier(value@) {
                    Some(id) => Ok(ChildModel { try_from: Some(id), ..st }),
                    None => Err(invalid_identifier(at, None)),
                }
            }
        } else {
            Err(unrecognized(at))
        },
        Directive::Flag { name } => if name@ == "default"@ {
            if st.default {
                Err(duplicate(at))
            } else {
                Ok(ChildModel { default: true, ..st })
            }
        } else if name@ == "flatten"@ {
            if st.flatten {
                Err(duplicate(at))
            } else {
                Ok(ChildModel { flatten: true, ..st })
            }
        } else {
            Err(unrecognized(at))
        },
        Directive::Value { name } => Err(unrecognized(at)),
        Directive::List { name, items } => Err(unrecognized(at)),
        Directive::Literal => Err(unrecognized(at)),
    }
}

pub open spec fn child_entries(st: ChildModel, entries: Seq<Directive>, block: int, from: int) -> Result<
    ChildModel,
    ConfigFault,
>
    decreases entries.len() - from,
{
    if from < 0 || from >= entries.len() {
        Ok(st)
    } else {
        match child_step(st, entries[from], position(block, from)) {
            Err(e) => Err(e),
            Ok(next) => child_entries(next, entries, block, from + 1),
        }
    }
}

/// The field-level directives after one block, read as the blocks of a type are.
pub open spec fn child_block(st: ChildModel, a: Attribute, block: int) -> Result<
    ChildModel,
    ConfigFault,
> {
    if a.name@ != block_name() {
        Ok(st)
    } else {
        match a.body {
            AttributeBody::Malformed { message } => Err(malformed(position(block, 0), message@)),
            AttributeBody::Plain => Ok(st),
            AttributeBody::List(entries) => child_entries(st, entries@, block, 0),
        }
    }
}

pub open spec fn child_blocks(st: ChildModel, input: Seq<Attribute>, from: int) -> Result<
    ChildModel,
    ConfigFault,
>
    decreases input.len() - from,
{
    if from < 0 || from >= input.len() {
        Ok(st)
    } else {
        match child_block(st, input[from], from) {
            Err(e) => Err(e),
            Ok(next) => child_blocks(next, input, from + 1),
        }
    }
}

/// What parsing the blocks of a field gives: its directives, or the first fault.
pub open spec fn parsed_child(input: Seq<Attribute>) -> Result<ChildModel, ConfigFault> {
    child_blocks(no_child_directives(), input, 0)
}

pub open spec fn is_child_result(
    r: Result<ChildAttributes, ConfigError>,
    expected: Result<ChildModel, ConfigFault>,
) -> bool {
    match expected {
        Ok(m) => r matches Ok(c) && c@ == m,
        Err(e) => r matches Err(x) && x.reports(e),
    }
}

/// Takes the intermediate type read from a `try_from` entry into the directives; a
/// text that was refused is an invalid value, reported in the words of the refusal.
pub fn accept_try_from(acc: ChildAttributes, parsed: Result<String, String>, at: SourcePosition) -> (r:
    Result<ChildAttributes, ConfigError>)
    ensures
        is_child_result(r, with_try_from(acc@, read_outcome(parsed), at)),
{
    let mut acc = acc;
    if acc.try_from.is_some() {
        return Err(duplicate_error(at));
    }
    match parsed {
        Ok(id) => {
            acc.try_from = Some(id);
            Ok(acc)
        },
        Err(words) => Err(
            ConfigError { kind: ConfigErrorKind::InvalidDirectiveValue, at, message: words },
        ),
    }
}

/// Takes one entry into the field-level directives read so far.
pub fn apply_child_directive(acc: ChildAttributes, d: &Directive, at: SourcePosition) -> (r: Result<ChildAttributes, ConfigError>)
    ensures
        is_child_result(r, child_step(acc@, *d, at)),
{
    let mut acc = acc;
    match d {
        Directive::Text { name, value } => {
            if same_text(name.as_str(), "alias") {
                if acc.alias.is_some() {
                    return Err(duplicate_error(at));
                }
                acc.alias = Some(value.clone());
                Ok(acc)
            } else if same_text(name.as_str(), "try_from") {
                if acc.try_from.is_some() {
                    return Err(duplicate_error(at));
                }
                let parsed = read_type_identifier(value.as_str());
                accept_try_from(acc, parsed, at)
            } else {
                Err(unrecognized_error(at))
            }
        },
        Directive::Flag { name } => {
            if same_text(name.as_str(), "default") {
                if acc.default {
                    return Err(duplicate_error(at));
                }
                acc.default = true;
                Ok(acc)
            } else if same_text(name.as_str(), "flatten") {
                if acc.flatten {
                    return Err(duplicate_error(at));
                }
                acc.flatten = true;
                Ok(acc)
            } else {
                Err(unrecognized_error(at))
            }
        },
        Directive::Value { name } => Err(
            unrecognized_error(at),
        ),
        Directive::List { name, items } => Err(
            unrecognized_error(at),
        ),
        Directive::Literal => Err(unrecognized_error(at)),
    }
}

/// Parses the directive blocks of one field. Blocks are read in order, and so are the
/// entries of each; the first fault ends the parse and is the result.
pub fn parse_child_attributes(input: &[Attribute]) -> (r: Result<ChildAttributes, ConfigError>)
    ensures
        is_child_result(r, parsed_child(input@)),
{
    let mut acc = ChildAttributes { alias: None, default: false, flatten: false, try_from: None };
    let mut i: usize = 0;
    while i < input.len()
        invariant
            i <= input.len(),
            parsed_child(input@) == child_blocks(acc@, input@, i as int),
        decreases input.len() - i,
    {
        let attr = &input[i];
        if same_text(attr.name.as_str(), "mapping") {
            match &attr.body {
                AttributeBody::Malformed { message } => {
                    return Err(
                        ConfigError {
                            kind: ConfigErrorKind::UnrecognizedDirective,
                            at: SourcePosition { block: i, entry: 0 },
                            message: message.clone(),
                        },
                    );
                },
                AttributeBody::Plain => {},
                AttributeBody::List(entries) => {
                    let ghost start = acc@;
                    let mut j: usize = 0;
                    while j < entries.len()
                        invariant
                            j <= entries.len(),
                            i < input.len(),
                            input@[i as int].name@ == block_name(),
                            input@[i as int].body == AttributeBody::List(*entries),
                            parsed_child(input@) == child_blocks(start, input@, i as int),
                            child_entries(start, entries@, i as int, 0) == child_entries(
                                acc@,
                                entries@,
                                i as int,
                                j as int,
                            ),
                        decreases entries.len() - j,
                    {
                        let at = SourcePosition { block: i, entry: j };
                        match apply_child_directive(acc, &entries[j], at) {
                            Err(e) => {
                                return Err(e);
                            },
                            Ok(next) => {
                                acc = next;
                            },
                        }
                        j = j + 1;
                    }
                },
            }
        }
        i = i + 1;
    }
    Ok(acc)
}

/// The directives of a type that may be given once.
pub enum ContainerScalar {
    Transparent,
    RenameAll,
    TypeName,
}

/// The once-only directive that an entry sets, if it is well-formed and sets one.
pub open spec fn container_scalar(d: Directive) -> Option<ContainerScalar> {
    match d {
        Directive::Flag { name } => if name@ == "transparent"@ {
            Some(ContainerScalar::Transparent)
        } else {
            None
        },
        Directive::Text { name, value } => if name@ == "rename_all"@ {
            if casing_tag(value@).is_some() {
                Some(ContainerScalar::RenameAll)
            } else {
                None
            }
        } else if name@ == "type_name"@ {
            Some(ContainerScalar::TypeName)
        } else {
            None
        },
        _ => None,
    }
}

/// Whether a once-only directive was given already.
pub open spec fn container_has(st: ContainerModel, key: ContainerScalar) -> bool {
    match key {
        ContainerScalar::Transparent => st.transparent,
        ContainerScalar::RenameAll => st.rename_all.is_some(),
        ContainerScalar::TypeName => st.type_name_override.is_some(),
    }
}

proof fn lemma_container_duplicate_from(
    st: ContainerModel,
    entries: Seq<Directive>,
    block: int,
    from: int,
    first: int,
    second: int,
    key: ContainerScalar,
)
    requires
        0 <= from <= second < entries.len(),
        container_scalar(entries[second]) == Some(key),
        container_has(st, key) || (from <= first < second && container_scalar(entries[first])
            == Some(key)),
    ensures
        container_entries(st, entries, block, from) is Err,
        container_entries(st, entries.take(second), block, from) is Ok ==> container_entries(
            st,
            entries,
            block,
            from,
        ) == Err::<ContainerModel, ConfigFault>(duplicate(position(block, second))),
    decreases second - from,
{
    if from < second {
        assert(entries.take(second)[from] == entries[from]);
        match container_step(st, entries[from], position(block, from)) {
            Err(e) => {},
            Ok(next) => {
                lemma_container_duplicate_from(next, entries, block, from + 1, first, second, key);
            },
        }
    }
}

/// A once-only directive of a type that is given a second time in a block fails the
/// parse, whether or not the two values are the same; and where nothing before the
/// second one is at fault, the fault is the duplicate, at the second one.
pub proof fn lemma_container_duplicate_rejected(
    st: ContainerModel,
    entries: Seq<Directive>,
    block: int,
    first: int,
    second: int,
    key: ContainerScalar,
)
    requires
        0 <= first < second < entries.len(),
        container_scalar(entries[first]) == Some(key),
        container_scalar(entries[second]) == Some(key),
    ensures
        container_entries(st, entries, block, 0) is Err,
        container_entries(st, entries.take(second), block, 0) is Ok ==> container_entries(
            st,
            entries,
            block,
            0,
        ) == Err::<ContainerModel, ConfigFault>(duplicate(position(block, second))),
{
    lemma_container_duplicate_from(st, entries, block, 0, first, second, key);
}

/// The directives of a field that may be given once.
pub enum ChildScalar {
    Alias,
    Default,
    Flatten,
    TryFrom,
}

/// The once-only directive that an entry sets, if it sets one.
pub open spec fn child_scalar(d: Directive) -> Option<ChildScalar> {
    match d {
        Directive::Flag { name } => if name@ == "default"@ {
            Some(ChildScalar::Default)
        } else if name@ == "flatten"@ {
            Some(ChildScalar::Flatten)
        } else {
            None
        },
        Directive::Text { name, value } => if name@ == "alias"@ {
            Some(ChildScalar::Alias)
        } else if name@ == "try_from"@ {
            Some(ChildScalar::TryFrom)
        } else {
            None
        },
        _ => None,
    }
}

/// Whether a once-only directive was given already.
pub open spec fn child_has(st: ChildModel, key: ChildScalar) -> bool {
    match key {
        ChildScalar::Alias => st.alias.is_some(),
        ChildScalar::Default => st.default,
        ChildScalar::Flatten => st.flatten,
        ChildScalar::TryFrom => st.try_from.is_some(),
    }
}

proof fn lemma_child_duplicate_from(
    st: ChildModel,
    entries: Seq<Directive>,
    block: int,
    from: int,
    first: int,
    second: int,
    key: ChildScalar,
)
    requires
        0 <= from <= second < entries.len(),
        child_scalar(entries[second]) == Some(key),
        child_has(st, key) || (from <= first < second && child_scalar(entries[first]) == Some(
            key,
        )),
    ensures
        child_entries(st, entries, block, from) is Err,
        child_entries(st, entries.take(second), block, from) is Ok ==> child_entries(
            st,
            entries,
            block,
            from,
        ) == Err::<ChildModel, ConfigFault>(duplicate(position(block, second))),
    decreases second - from,
{
    if from < second {
        assert(entries.take(second)[from] == entries[from]);
        match child_step(st, entries[from], position(block, from)) {
            Err(e) => {},
            Ok(next) => {
                lemma_child_duplicate_from(next, entries, block, from + 1, first, second, key);
            },
        }
    }
}

/// A once-only directive of a field that is given a second time in a block fails the
/// parse, whether or not the two values are the same; and where nothing before the
/// second one is at fault, the fault is the duplicate, at the second one.
pub proof fn lemma_child_duplicate_rejected(
    st: ChildModel,
    entries: Seq<Directive>,
    block: int,
    first: int,
    second: int,
    key: ChildScalar,
)
    requires
        0 <= first < second < entries.len(),
        child_scalar(entries[first]) == Some(key),
        child_scalar(entries[second]) == Some(key),
    ensures
        child_entries(st, entries, block, 0) is Err,
        child_entries(st, entries.take(second), block, 0) is Ok ==> child_entries(
            st,
            entries,
            block,
            0,
        ) == Err::<ChildModel, ConfigFault>(duplicate(position(block, second))),
{
    lemma_child_duplicate_from(st, entries, block, 0, first, second, key);
}

/// The literal that stands for a naming convention.
pub fn casing_literal(tag: RenameAll) -> (r: String)
    ensures
        casing_tag(r@) == Some(tag),
{
    proof {
        reveal_strlit("lowercase");
        reveal_strlit("snake_case");
        reveal_strlit("UPPERCASE");
        reveal_strlit("SCREAMING_SNAKE_CASE");
        reveal_strlit("kebab-case");
        reveal_strlit("camelCase");
        reveal_strlit("PascalCase");
        assert("lowercase"@[0] == 'l');
        assert("snake_case"@[0] == 's');
        assert("UPPERCASE"@[0] == 'U');
        assert("kebab-case"@[0] == 'k');
        assert("camelCase"@[0] == 'c');
        assert("PascalCase"@[0] == 'P');
    }
    match tag {
        RenameAll::LowerCase => String::from_str("lowercase"),
        RenameAll::SnakeCase => String::from_str("snake_case"),
        RenameAll::UpperCase => String::from_str("UPPERCASE"),
        RenameAll::ScreamingSnakeCase => String::from_str("SCREAMING_SNAKE_CASE"),
        RenameAll::KebabCase => String::from_str("kebab-case"),
        RenameAll::CamelCase => String::from_str("camelCase"),
        RenameAll::PascalCase => String::from_str("PascalCase"),
    }
}

/// A list of string literals with the given texts, in order.
pub fn text_items(v: &Vec<String>) -> (r: Vec<ListItem>)
    ensures
        kept_texts(r@) == texts(v@),
        r@.len() == v@.len(),
{
    let mut out: Vec<ListItem> = Vec::new();
    let mut k: usize = 0;
    assert(kept_texts(out@) =~= texts(v@).take(0));
    while k < v.len()
        invariant
            k <= v.len(),
            out@.len() == k,
            kept_texts(out@) == texts(v@).take(k as int),
        decreases v.len() - k,
    {
        let ghost before = out@;
        out.push(ListItem::Text(v[k].clone()));
        assert(out@.drop_last() =~= before);
        assert(kept_texts(out@) =~= texts(v@).take(k + 1));
        k = k + 1;
    }
    assert(texts(v@).take(v.len() as int) =~= texts(v@));
    out
}

proof fn lemma_container_entries_push(
    st: ContainerModel,
    entries: Seq<Directive>,
    d: Directive,
    block: int,
    from: int,
)
    requires
        0 <= from <= entries.len(),
    ensures
        container_entries(st, entries.push(d), block, from) == match container_entries(
            st,
            entries,
            block,
            from,
        ) {
            Ok(m) => container_step(m, d, position(block, entries.len() as int)),
            Err(e) => Err(e),
        },
    decreases entries.len() - from,
{
    let longer = entries.push(d);
    if from < entries.len() {
        assert(longer[from] == entries[from]);
        match container_step(st, entries[from], position(block, from)) {
            Err(e) => {},
            Ok(next) => {
                lemma_container_entries_push(next, entries, d, block, from + 1);
            },
        }
    } else {
        assert(longer[from] == d);
        match container_step(st, d, position(block, from)) {
            Err(e) => {},
            Ok(next) => {
                assert(container_entries(next, longer, block, from + 1) == Ok::<
                    ContainerModel,
                    ConfigFault,
                >(next));
            },
        }
    }
}

/// Whether two sets of type-level directives say the same, wherever each was written.
pub open spec fn same_container_settings(a: ContainerModel, b: ContainerModel) -> bool {
    &&& a.transparent == b.transparent
    &&& a.rename_all == b.rename_all
    &&& a.possible_prefix == b.possible_prefix
    &&& a.possible_separator == b.possible_separator
    &&& match (a.type_name_override, b.type_name_override) {
        (Some(x), Some(y)) => x.val == y.val,
        (None, None) => true,
        _ => false,
    }
}

impl ContainerAttributes {
    /// Writes the directives down as one block of entries. Parsing that block gives
    /// the same directives again.
    pub fn to_attributes(&self) -> (r: Vec<Attribute>)
        ensures
            parsed_container(r@) matches Ok(m) && same_container_settings(m, self@),
    {
        proof {
            reveal_strlit("rename_all");
            reveal_strlit("type_name");
            reveal_strlit("possible_prefix");
            reveal_strlit("possible_separator");
            assert("rename_all"@.len() != "type_name"@.len());
            assert("possible_prefix"@.len() != "possible_separator"@.len());
        }
        let mut entries: Vec<Directive> = Vec::new();
        let ghost mut st = no_container_directives();
        if self.transparent {
            let d = Directive::Flag { name: String::from_str("transparent") };
            proof {
                lemma_container_entries_push(st, entries@, d, 0, 0);
                st = ContainerModel { transparent: true, ..st };
            }
            entries.push(d);
        }
        assert(container_entries(no_container_directives(), entries@, 0, 0) == Ok::<
            ContainerModel,
            ConfigFault,
        >(st));
        match &self.type_name_override {
            Some(t) => {
                let d = Directive::Text { name: String::from_str("type_name"), value: t.val.clone() };
                proof {
                    lemma_container_entries_push(no_container_directives(), entries@, d, 0, 0);
                    st = ContainerModel {
                        type_name_override: Some(
                            TypeNameModel { val: t.val@, span: position(0, entries@.len() as int) },
                        ),
                        ..st
                    };
                }
                entries.push(d);
            },
            None => {},
        }
        assert(container_entries(no_container_directives(), entries@, 0, 0) == Ok::<
            ContainerModel,
            ConfigFault,
        >(st));
        match self.rename_all {
            Some(tag) => {
                let d = Directive::Text {
                    name: String::from_str("rename_all"),
                    value: casing_literal(tag),
                };
                proof {
                    lemma_container_entries_push(no_container_directives(), entries@, d, 0, 0);
                    st = ContainerModel { rename_all: Some(tag), ..st };
                }
                entries.push(d);
            },
            None => {},
        }
        assert(container_entries(no_container_directives(), entries@, 0, 0) == Ok::<
            ContainerModel,
            ConfigFault,
        >(st));
        let prefixes = Directive::List {
            name: String::from_str("possible_prefix"),
            items: text_items(&self.possible_prefix),
        };
        proof {
            lemma_container_entries_push(no_container_directives(), entries@, prefixes, 0, 0);
            assert(st.possible_prefix + texts(self.possible_prefix@) =~= texts(
                self.possible_prefix@,
            ));
            st = ContainerModel { possible_prefix: texts(self.possible_prefix@), ..st };
        }
        entries.push(prefixes);
        assert(container_entries(no_container_directives(), entries@, 0, 0) == Ok::<
            ContainerModel,
            ConfigFault,
        >(st));
        let separators = Directive::List {
            name: String::from_str("possible_separator"),
            items: text_items(&self.possible_separator),
        };
        proof {
            lemma_container_entries_push(no_container_directives(), entries@, separators, 0, 0);
            assert(st.possible_separator + texts(self.possible_separator@) =~= texts(
                self.possible_separator@,
            ));
            st = ContainerModel { possible_separator: texts(self.possible_separator@), ..st };
        }
        entries.push(separators);
        assert(container_entries(no_container_directives(), entries@, 0, 0) == Ok::<
            ContainerModel,
            ConfigFault,
        >(st));
        let ghost all = entries@;
        let mut out: Vec<Attribute> = Vec::new();
        out.push(Attribute { name: String::from_str("mapping"), body: AttributeBody::List(entries) });
        proof {
            assert(out@[0].name@ == block_name());
            assert(container_block(no_container_directives(), out@[0], 0) == Ok::<
                ContainerModel,
                ConfigFault,
            >(st));
            assert(container_blocks(st, out@, 1) == Ok::<ContainerModel, ConfigFault>(st));
        }
        out
    }
}

proof fn lemma_child_entries_push(
    st: ChildModel,
    entries: Seq<Directive>,
    d: Directive,
    block: int,
    from: int,
)
    requires
        0 <= from <= entries.len(),
    ensures
        child_entries(st, entries.push(d), block, from) == match child_entries(
            st,
            entries,
            block,
            from,
        ) {
            Ok(m) => child_step(m, d, position(block, entries.len() as int)),
            Err(e) => Err(e),
        },
    decreases entries.len() - from,
{
    let longer = entries.push(d);
    if from < entries.len() {
        assert(longer[from] == entries[from]);
        match child_step(st, entries[from], position(block, from)) {
            Err(e) => {},
            Ok(next) => {
                lemma_child_entries_push(next, entries, d, block, from + 1);
            },
        }
    } else {
        assert(longer[from] == d);
        match child_step(st, d, position(block, from)) {
            Err(e) => {},
            Ok(next) => {
                assert(child_entries(next, longer, block, from + 1) == Ok::<
                    ChildModel,
                    ConfigFault,
                >(next));
            },
        }
    }
}

/// Whether an intermediate type, where there is one, is a text that reads as the
/// identifier it is.
pub open spec fn reads_as_itself(id: Option<Seq<char>>) -> bool {
    match id {
        Some(t) => type_identifier(t) == Some(t),
        None => true,
    }
}

impl ChildAttributes {
    /// Tests whether the intermediate type, where there is one, reads as itself, by
    /// reading it once more.
    pub fn reads_back(&self) -> (r: bool)
        ensures
            r == reads_as_itself(self@.try_from),
    {
        match &self.try_from {
            None => true,
            Some(id) => match read_type_identifier(id.as_str()) {
                Ok(again) => same_text(again.as_str(), id.as_str()),
                Err(_) => false,
            },
        }
    }

    /// Writes the directives down as one block of entries. Parsing that block gives
    /// the same directives again, as long as the intermediate type, where there is
    /// one, is an identifier that reads as itself.
    pub fn to_attributes(&self) -> (r: Vec<Attribute>)
        ensures
            reads_as_itself(self@.try_from) ==> parsed_child(r@) == Ok::<ChildModel, ConfigFault>(
                self@,
            ),
    {
        proof {
            reveal_strlit("alias");
            reveal_strlit("try_from");
            reveal_strlit("default");
            reveal_strlit("flatten");
            assert("alias"@.len() != "try_from"@.len());
            assert("default"@[0] == 'd');
            assert("flatten"@[0] == 'f');
        }
        let ghost readable = reads_as_itself(self@.try_from);
        let ghost none = no_child_directives();
        let mut entries: Vec<Directive> = Vec::new();
        let ghost mut st = none;
        match &self.alias {
            Some(a) => {
                let d = Directive::Text { name: String::from_str("alias"), value: a.clone() };
                proof {
                    lemma_child_entries_push(none, entries@, d, 0, 0);
                    st = ChildModel { alias: Some(a@), ..st };
                }
                entries.push(d);
            },
            None => {},
        }
        assert(child_entries(none, entries@, 0, 0) == Ok::<ChildModel, ConfigFault>(st));
        if self.default {
            let d = Directive::Flag { name: String::from_str("default") };
            proof {
                lemma_child_entries_push(none, entries@, d, 0, 0);
                st = ChildModel { default: true, ..st };
            }
            entries.push(d);
        }
        assert(child_entries(none, entries@, 0, 0) == Ok::<ChildModel, ConfigFault>(st));
        if self.flatten {
            let d = Directive::Flag { name: String::from_str("flatten") };
            proof {
                lemma_child_entries_push(none, entries@, d, 0, 0);
                st = ChildModel { flatten: true, ..st };
            }
            entries.push(d);
        }
        assert(child_entries(none, entries@, 0, 0) == Ok::<ChildModel, ConfigFault>(st));
        match &self.try_from {
            Some(id) => {
                let d = Directive::Text { name: String::from_str("try_from"), value: id.clone() };
                proof {
                    lemma_child_entries_push(none, entries@, d, 0, 0);
                    st = ChildModel { try_from: Some(id@), ..st };
                }
                entries.push(d);
            },
            None => {},
        }
        assert(readable ==> child_entries(none, entries@, 0, 0) == Ok::<ChildModel, ConfigFault>(
            st,
        ));
        assert(st == self@);
        let mut out: Vec<Attribute> = Vec::new();
        out.push(Attribute { name: String::from_str("mapping"), body: AttributeBody::List(entries) });
        proof {
            assert(out@[0].name@ == block_name());
            assert(readable ==> child_block(none, out@[0], 0) == Ok::<ChildModel, ConfigFault>(st));
            assert(child_blocks(st, out@, 1) == Ok::<ChildModel, ConfigFault>(st));
        }
        out
    }
}

/// Whether an entry is one that a type can hold: a known key in its shape, with a
/// value of its domain.
pub open spec fn container_recognized(d: Directive) -> bool {
    container_step(no_container_directives(), d, position(0, 0)) is Ok
}

/// The once-only directive that the entry at `entry` of the block at `block` sets,
/// where that block is read and the entry sets one.
pub open spec fn container_key_at(input: Seq<Attribute>, block: int, entry: int) -> Option<ContainerScalar> {
    if 0 <= block < input.len() && input[block].name@ == block_name() && input[block].body is List
        && 0 <= entry < input[block].body->List_0@.len() {
        container_scalar(input[block].body->List_0@[entry])
    } else {
        None
    }
}

/// Whether the blocks of a type hold nothing at fault: every block that is read is
/// well-formed, every entry of it is recognized, and no once-only directive is set by
/// two entries, in one block or in two.
pub open spec fn container_well_formed(input: Seq<Attribute>) -> bool {
    &&& forall|i: int|
        0 <= i < input.len() && (#[trigger] input[i]).name@ == block_name() ==> !(input[i].body
            is Malformed)
    &&& forall|i: int, a: int|
        0 <= i < input.len() && input[i].name@ == block_name() && input[i].body is List && 0 <= a
            < input[i].body->List_0@.len() ==> container_recognized(
            #[trigger] input[i].body->List_0@[a],
        )
    &&& forall|i: int, a: int, j: int, b: int|
        #![trigger container_key_at(input, i, a), container_key_at(input, j, b)]
        (i < j || (i == j && a < b)) && container_key_at(input, i, a) is Some ==> container_key_at(
            input,
            i,
            a,
        ) != container_key_at(input, j, b)
}

/// Whether every once-only directive that is set was set by an entry before the
/// given place.
pub open spec fn container_seen(input: Seq<Attribute>, st: ContainerModel, block: int, entry: int) -> bool {
    forall|key: ContainerScalar| #[trigger]
        container_has(st, key) ==> exists|i: int, a: int|
            (i < block || (i == block && a < entry)) && #[trigger] container_key_at(input, i, a)
                == Some(key)
}

proof fn lemma_container_seen_later(
    input: Seq<Attribute>,
    st: ContainerModel,
    block: int,
    entry: int,
    later_block: int,
    later_entry: int,
)
    requires
        container_seen(input, st, block, entry),
        block < later_block || (block == later_block && entry <= later_entry),
    ensures
        container_seen(input, st, later_block, later_entry),
{
    assert forall|key: ContainerScalar| #[trigger] container_has(st, key) implies exists|i: int, a: int|
        (i < later_block || (i == later_block && a < later_entry)) && #[trigger] container_key_at(
            input,
            i,
            a,
        ) == Some(key) by {
        let (i, a) = choose|i: int, a: int|
            (i < block || (i == block && a < entry)) && #[trigger] container_key_at(input, i, a)
                == Some(key);
        assert(container_key_at(input, i, a) == Some(key));
    }
}

proof fn lemma_container_entries_succeed(input: Seq<Attribute>, st: ContainerModel, block: int, from: int)
    requires
        container_well_formed(input),
        0 <= block < input.len(),
        input[block].name@ == block_name(),
        input[block].body is List,
        0 <= from <= input[block].body->List_0@.len(),
        container_seen(input, st, block, from),
    ensures
        container_entries(st, input[block].body->List_0@, block, from) matches Ok(fin) && container_seen(
            input,
            fin,
            block + 1,
            0,
        ),
    decreases input[block].body->List_0@.len() - from,
{
    let entries = input[block].body->List_0@;
    if from < entries.len() {
        let d = entries[from];
        assert(container_recognized(d));
        assert(container_key_at(input, block, from) == container_scalar(d));
        match container_scalar(d) {
            Some(key) => {
                if container_has(st, key) {
                    let (i, a) = choose|i: int, a: int|
                        (i < block || (i == block && a < from)) && #[trigger] container_key_at(
                            input,
                            i,
                            a,
                        ) == Some(key);
                    assert(container_key_at(input, i, a) != container_key_at(input, block, from));
                }
            },
            None => {},
        }
        let next = container_step(st, d, position(block, from))->Ok_0;
        assert forall|key: ContainerScalar| #[trigger] container_has(next, key) implies exists|
            i: int,
            a: int,
        |
            (i < block || (i == block && a < from + 1)) && #[trigger] container_key_at(input, i, a)
                == Some(key) by {
            if container_scalar(d) == Some(key) {
                assert(container_key_at(input, block, from) == Some(key));
            } else {
                assert(container_has(st, key));
                let (i, a) = choose|i: int, a: int|
                    (i < block || (i == block && a < from)) && #[trigger] container_key_at(input, i, a)
                        == Some(key);
                assert(container_key_at(input, i, a) == Some(key));
            }
        }
        lemma_container_entries_succeed(input, next, block, from + 1);
    } else {
        lemma_container_seen_later(input, st, block, from, block + 1, 0);
    }
}

proof fn lemma_container_blocks_succeed(input: Seq<Attribute>, st: ContainerModel, from: int)
    requires
        container_well_formed(input),
        0 <= from <= input.len(),
        container_seen(input, st, from, 0),
    ensures
        container_blocks(st, input, from) is Ok,
    decreases input.len() - from,
{
    if from < input.len() {
        let a = input[from];
        if a.name@ != block_name() {
            lemma_container_seen_later(input, st, from, 0, from + 1, 0);
            lemma_container_blocks_succeed(input, st, from + 1);
        } else {
            assert(!(a.body is Malformed));
            match a.body {
                AttributeBody::List(entries) => {
                    lemma_container_entries_succeed(input, st, from, 0);
                    let fin = container_entries(st, entries@, from, 0)->Ok_0;
                    lemma_container_blocks_succeed(input, fin, from + 1);
                },
                _ => {
                    lemma_container_seen_later(input, st, from, 0, from + 1, 0);
                    lemma_container_blocks_succeed(input, st, from + 1);
                },
            }
        }
    }
}

/// Blocks that hold only recognized entries, no two of which set the same once-only
/// directive, parse without a fault, however many blocks there are.
pub proof fn lemma_container_parse_succeeds(input: Seq<Attribute>)
    requires
        container_well_formed(input),
    ensures
        parsed_container(input) is Ok,
{
    lemma_container_blocks_succeed(input, no_container_directives(), 0);
}

/// Whether an entry is one that a field can hold: a known key in its shape, with a
/// value of its domain.
pub open spec fn child_recognized(d: Directive) -> bool {
    child_step(no_child_directives(), d, position(0, 0)) is Ok
}

/// The once-only directive that the entry at `entry` of the block at `block` sets,
/// where that block is read and the entry sets one.
pub open spec fn child_key_at(input: Seq<Attribute>, block: int, entry: int) -> Option<ChildScalar> {
    if 0 <= block < input.len() && input[block].name@ == block_name() && input[block].body is List
        && 0 <= entry < input[block].body->List_0@.len() {
        child_scalar(input[block].body->List_0@[entry])
    } else {
        None
    }
}

/// Whether the blocks of a field hold nothing at fault: every block that is read is
/// well-formed, every entry of it is recognized, and no once-only directive is set by
/// two entries, in one block or in two.
pub open spec fn child_well_formed(input: Seq<Attribute>) -> bool {
    &&& forall|i: int|
        0 <= i < input.len() && (#[trigger] input[i]).name@ == block_name() ==> !(input[i].body
            is Malformed)
    &&& forall|i: int, a: int|
        0 <= i < input.len() && input[i].name@ == block_name() && input[i].body is List && 0 <= a
            < input[i].body->List_0@.len() ==> child_recognized(
            #[trigger] input[i].body->List_0@[a],
        )
    &&& forall|i: int, a: int, j: int, b: int|
        #![trigger child_key_at(input, i, a), child_key_at(input, j, b)]
        (i < j || (i == j && a < b)) && child_key_at(input, i, a) is Some ==> child_key_at(
            input,
            i,
            a,
        ) != child_key_at(input, j, b)
}

/// Whether every once-only directive that is set was set by an entry before the
/// given place.
pub open spec fn child_seen(input: Seq<Attribute>, st: ChildModel, block: int, entry: int) -> bool {
    forall|key: ChildScalar| #[trigger]
        child_has(st, key) ==> exists|i: int, a: int|
            (i < block || (i == block && a < entry)) && #[trigger] child_key_at(input, i, a)
                == Some(key)
}

proof fn lemma_child_seen_later(
    input: Seq<Attribute>,
    st: ChildModel,
    block: int,
    entry: int,
    later_block: int,
    later_entry: int,
)
    requires
        child_seen(input, st, block, entry),
        block < later_block || (block == later_block && entry <= later_entry),
    ensures
        child_seen(input, st, later_block, later_entry),
{
    assert forall|key: ChildScalar| #[trigger] child_has(st, key) implies exists|i: int, a: int|
        (i < later_block || (i == later_block && a < later_entry)) && #[trigger] child_key_at(
            input,
            i,
            a,
        ) == Some(key) by {
        let (i, a) = choose|i: int, a: int|
            (i < block || (i == block && a < entry)) && #[trigger] child_key_at(input, i, a)
                == Some(key);
        assert(child_key_at(input, i, a) == Some(key));
    }
}

proof fn lemma_child_entries_succeed(input: Seq<Attribute>, st: ChildModel, block: int, from: int)
    requires
        child_well_formed(input),
        0 <= block < input.len(),
        input[block].name@ == block_name(),
        input[block].body is List,
        0 <= from <= input[block].body->List_0@.len(),
        child_seen(input, st, block, from),
    ensures
        child_entries(st, input[block].body->List_0@, block, from) matches Ok(fin) && child_seen(
            input,
            fin,
            block + 1,
            0,
        ),
    decreases input[block].body->List_0@.len() - from,
{
    let entries = input[block].body->List_0@;
    if from < entries.len() {
        let d = entries[from];
        assert(child_recognized(d));
        assert(child_key_at(input, block, from) == child_scalar(d));
        match child_scalar(d) {
            Some(key) => {
                if child_has(st, key) {
                    let (i, a) = choose|i: int, a: int|
                        (i < block || (i == block && a < from)) && #[trigger] child_key_at(
                            input,
                            i,
                            a,
                        ) == Some(key);
                    assert(child_key_at(input, i, a) != child_key_at(input, block, from));
                }
            },
            None => {},
        }
        let next = child_step(st, d, position(block, from))->Ok_0;
        assert forall|key: ChildScalar| #[trigger] child_has(next, key) implies exists|
            i: int,
            a: int,
        |
            (i < block || (i == block && a < from + 1)) && #[trigger] child_key_at(input, i, a)
                == Some(key) by {
            if child_scalar(d) == Some(key) {
                assert(child_key_at(input, block, from) == Some(key));
            } else {
                assert(child_has(st, key));
                let (i, a) = choose|i: int, a: int|
                    (i < block || (i == block && a < from)) && #[trigger] child_key_at(input, i, a)
                        == Some(key);
                assert(child_key_at(input, i, a) == Some(key));
            }
        }
        lemma_child_entries_succeed(input, next, block, from + 1);
    } else {
        lemma_child_seen_later(input, st, block, from, block + 1, 0);
    }
}

proof fn lemma_child_blocks_succeed(input: Seq<Attribute>, st: ChildModel, from: int)
    requires
        child_well_formed(input),
        0 <= from <= input.len(),
        child_seen(input, st, from, 0),
    ensures
        child_blocks(st, input, from) is Ok,
    decreases input.len() - from,
{
    if from < input.len() {
        let a = input[from];
        if a.name@ != block_name() {
            lemma_child_seen_later(input, st, from, 0, from + 1, 0);
            lemma_child_blocks_succeed(input, st, from + 1);
        } else {
            assert(!(a.body is Malformed));
            match a.body {
                AttributeBody::List(entries) => {
                    lemma_child_entries_succeed(input, st, from, 0);
                    let fin = child_entries(st, entries@, from, 0)->Ok_0;
                    lemma_child_blocks_succeed(input, fin, from + 1);
                },
                _ => {
                    lemma_child_seen_later(input, st, from, 0, from + 1, 0);
                    lemma_child_blocks_succeed(input, st, from + 1);
                },
            }
        }
    }
}

/// Blocks that hold only recognized entries, no two of which set the same once-only
/// directive, parse without a fault, however many blocks there are.
pub proof fn lemma_child_parse_succeeds(input: Seq<Attribute>)
    requires
        child_well_formed(input),
    ensures
        parsed_child(input) is Ok,
{
    lemma_child_blocks_succeed(input, no_child_directives(), 0);
}

proof fn lemma_container_entries_set(
    st: ContainerModel,
    entries: Seq<Directive>,
    block: int,
    from: int,
    first: int,
    key: ContainerScalar,
)
    requires
        0 <= from <= entries.len(),
        container_has(st, key) || (from <= first < entries.len() && container_scalar(entries[first])
            == Some(key)),
        container_entries(st, entries, block, from) is Ok,
    ensures
        container_has(container_entries(st, entries, block, from)->Ok_0, key),
    decreases entries.len() - from,
{
    if from < entries.len() {
        match container_step(st, entries[from], position(block, from)) {
            Err(e) => {},
            Ok(next) => {
                lemma_container_entries_set(next, entries, block, from + 1, first, key);
            },
        }
    }
}

proof fn lemma_container_duplicate_in_blocks(
    st: ContainerModel,
    input: Seq<Attribute>,
    from: int,
    first_block: int,
    first: int,
    second_block: int,
    second: int,
    key: ContainerScalar,
)
    requires
        0 <= from <= second_block < input.len(),
        container_key_at(input, second_block, second) == Some(key),
        container_has(st, key) || (from <= first_block && (first_block < second_block || (first_block
            == second_block && first < second)) && container_key_at(input, first_block, first)
            == Some(key)),
    ensures
        container_blocks(st, input, from) is Err,
    decreases second_block - from,
{
    let a = input[from];
    if from == second_block {
        let entries = a.body->List_0@;
        lemma_container_duplicate_from(st, entries, from, 0, first, second, key);
    } else {
        match container_block(st, a, from) {
            Err(e) => {},
            Ok(next) => {
                if a.name@ == block_name() && a.body is List && (container_has(st, key)
                    || first_block == from) {
                    lemma_container_entries_set(st, a.body->List_0@, from, 0, first, key);
                }
                lemma_container_duplicate_in_blocks(
                    next,
                    input,
                    from + 1,
                    first_block,
                    first,
                    second_block,
                    second,
                    key,
                );
            },
        }
    }
}

/// A type on which a once-only directive is given twice, in one block or in two, has
/// no configuration, whether or not the two values are the same.
pub proof fn lemma_container_duplicate_fails_parse(
    input: Seq<Attribute>,
    first_block: int,
    first: int,
    second_block: int,
    second: int,
    key: ContainerScalar,
)
    requires
        first_block < second_block || (first_block == second_block && first < second),
        container_key_at(input, first_block, first) == Some(key),
        container_key_at(input, second_block, second) == Some(key),
    ensures
        parsed_container(input) is Err,
{
    lemma_container_duplicate_in_blocks(
        no_container_directives(),
        input,
        0,
        first_block,
        first,
        second_block,
        second,
        key,
    );
}

proof fn lemma_child_entries_set(
    st: ChildModel,
    entries: Seq<Directive>,
    block: int,
    from: int,
    first: int,
    key: ChildScalar,
)
    requires
        0 <= from <= entries.len(),
        child_has(st, key) || (from <= first < entries.len() && child_scalar(entries[first])
            == Some(key)),
        child_entries(st, entries, block, from) is Ok,
    ensures
        child_has(child_entries(st, entries, block, from)->Ok_0, key),
    decreases entries.len() - from,
{
    if from < entries.len() {
        match child_step(st, entries[from], position(block, from)) {
            Err(e) => {},
            Ok(next) => {
                lemma_child_entries_set(next, entries, block, from + 1, first, key);
            },
        }
    }
}

proof fn lemma_child_duplicate_in_blocks(
    st: ChildModel,
    input: Seq<Attribute>,
    from: int,
    first_block: int,
    first: int,
    second_block: int,
    second: int,
    key: ChildScalar,
)
    requires
        0 <= from <= second_block < input.len(),
        child_key_at(input, second_block, second) == Some(key),
        child_has(st, key) || (from <= first_block && (first_block < second_block || (first_block
            == second_block && first < second)) && child_key_at(input, first_block, first)
            == Some(key)),
    ensures
        child_blocks(st, input, from) is Err,
    decreases second_block - from,
{
    let a = input[from];
    if from == second_block {
        let entries = a.body->List_0@;
        lemma_child_duplicate_from(st, entries, from, 0, first, second, key);
    } else {
        match child_block(st, a, from) {
            Err(e) => {},
            Ok(next) => {
                if a.name@ == block_name() && a.body is List && (child_has(st, key)
                    || first_block == from) {
                    lemma_child_entries_set(st, a.body->List_0@, from, 0, first, key);
                }
                lemma_child_duplicate_in_blocks(
                    next,
                    input,
                    from + 1,
                    first_block,
                    first,
                    second_block,
                    second,
                    key,
                );
            },
        }
    }
}

/// A field on which a once-only directive is given twice, in one block or in two, has
/// no configuration, whether or not the two values are the same.
pub proof fn lemma_child_duplicate_fails_parse(
    input: Seq<Attribute>,
    first_block: int,
    first: int,
    second_block: int,
    second: int,
    key: ChildScalar,
)
    requires
        first_block < second_block || (first_block == second_block && first < second),
        child_key_at(input, first_block, first) == Some(key),
        child_key_at(input, second_block, second) == Some(key),
    ensures
        parsed_child(input) is Err,
{
    lemma_child_duplicate_in_blocks(
        no_child_directives(),
        input,
        0,
        first_block,
        first,
        second_block,
        second,
        key,
    );
}

} // verus!
