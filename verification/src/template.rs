//! Templates made of literal text, `{field}` references and the escapes
//! `{{` and `}}`: their grammar, the compiler that resolves every field
//! against a registry, and the renderer.

use crate::util::{char_at, chars_of};
use vstd::prelude::*;
use vstd::string::StringExecFns;

pub mod laws;

verus! {

/// The text of an optional string.
pub open spec fn option_text(value: Option<String>) -> Option<Seq<char>> {
    match value {
        Some(s) => Some(s@),
        None => None,
    }
}

/// A pure function from a metadata record to an optional text.
pub trait Extractor<M> {
    /// What this extractor yields for `meta`.
    open spec fn value(&self, meta: &M) -> Option<Seq<char>> {
        arbitrary()
    }

    /// Computes `value`.
    fn extract(&self, meta: &M) -> (r: Option<String>)
        ensures
            option_text(r) == self.value(meta),
    ;
}

/// A named field: the name by which templates refer to it and the extractor
/// that produces its text.
#[derive(Debug)]
pub struct FieldDescriptor<E> {
    pub name: String,
    pub extractor: E,
}

/// The first descriptor at or after position `from` whose name is `name`.
pub open spec fn find_from<E>(fields: Seq<FieldDescriptor<E>>, name: Seq<char>, from: int) -> Option<
    FieldDescriptor<E>,
>
    decreases fields.len() - from,
{
    if from < 0 || from >= fields.len() {
        None
    } else if fields[from].name@ == name {
        Some(fields[from])
    } else {
        find_from(fields, name, from + 1)
    }
}

/// The descriptor registered under `name`, if there is one.
pub open spec fn find_field<E>(fields: Seq<FieldDescriptor<E>>, name: Seq<char>) -> Option<
    FieldDescriptor<E>,
> {
    find_from(fields, name, 0)
}

/// No two descriptors share a name.
pub open spec fn names_unique<E>(fields: Seq<FieldDescriptor<E>>) -> bool {
    forall|i: int, j: int|
        0 <= i < j < fields.len() ==> (#[trigger] fields[i]).name@ != (#[trigger] fields[j]).name@
}

/// An ordered mapping from field names to extractors.
#[derive(Debug)]
pub struct FieldRegistry<E> {
    fields: Vec<FieldDescriptor<E>>,
}

impl<E> View for FieldRegistry<E> {
    type V = Seq<FieldDescriptor<E>>;

    closed spec fn view(&self) -> Seq<FieldDescriptor<E>> {
        self.fields@
    }
}

impl<E> FieldRegistry<E> {
    #[verifier::type_invariant]
    spec fn unique(&self) -> bool {
        names_unique(self.fields@)
    }

    /// A registry without fields.
    pub fn new() -> (r: Self)
        ensures
            r@ == Seq::<FieldDescriptor<E>>::empty(),
            names_unique(r@),
    {
        FieldRegistry { fields: Vec::new() }
    }

    /// The number of registered fields.
    pub fn len(&self) -> (n: usize)
        ensures
            n == self@.len(),
            names_unique(self@),
    {
        proof {
            use_type_invariant(self);
        }
        self.fields.len()
    }

    /// The position of the field named `name`.
    fn position(&self, name: &str) -> (r: Option<usize>)
        ensures
            match r {
                Some(i) => i < self@.len() && self@[i as int].name@ == name@ && find_field(
                    self@,
                    name@,
                ) == Some(self@[i as int]),
                None => find_field(self@, name@) is None && forall|k: int|
                    0 <= k < self@.len() ==> (#[trigger] self@[k]).name@ != name@,
            },
    {
        let wanted = name.to_owned();
        let mut i: usize = 0;
        while i < self.fields.len()
            invariant
                i <= self.fields.len(),
                wanted@ == name@,
                find_field(self@, name@) == find_from(self@, name@, i as int),
                forall|k: int| 0 <= k < i ==> (#[trigger] self@[k]).name@ != name@,
            decreases self.fields.len() - i,
        {
            if self.fields[i].name == wanted {
                return Some(i);
            }
            i += 1;
        }
        None
    }

    /// The descriptor registered under `name`.
    pub fn lookup(&self, name: &str) -> (r: Option<&FieldDescriptor<E>>)
        ensures
            match r {
                Some(d) => find_field(self@, name@) == Some(*d),
                None => find_field(self@, name@) is None,
            },
    {
        match self.position(name) {
            Some(i) => Some(&self.fields[i]),
            None => None,
        }
    }

    /// This registry with `extractor` registered under `name`. A field of that
    /// name that is already there is replaced where it stands; otherwise the
    /// new field comes last.
    pub fn with_field(self, name: String, extractor: E) -> (r: Self)
        ensures
            match find_field(self@, name@) {
                Some(_) => exists|i: int|
                    0 <= i < self@.len() && self@[i].name@ == name@ && r@ == self@.update(
                        i,
                        FieldDescriptor { name, extractor },
                    ),
                None => r@ == self@.push(FieldDescriptor { name, extractor }),
            },
            names_unique(r@),
    {
        proof {
            use_type_invariant(&self);
        }
        let found = self.position(name.as_str());
        let mut fields = self.fields;
        match found {
            Some(i) => {
                fields.set(i, FieldDescriptor { name, extractor });
            },
            None => {
                fields.push(FieldDescriptor { name, extractor });
            },
        }
        FieldRegistry { fields }
    }
}

/// One unit of a compiled template, as the grammar sees it: a character that
/// is emitted as it stands, or a reference to a registered field.
pub enum Token<E> {
    Char(char),
    Field(FieldDescriptor<E>),
}

/// Why a template is refused.
#[derive(Clone, Debug, PartialEq, Eq)]
pub enum TemplateError {
    /// A `{name}` whose name the registry does not hold.
    UnknownField(String),
    /// The template ends inside a field reference.
    UnterminatedField,
    /// A `{` inside a field reference whose name has begun.
    NestedBrace,
    /// A `}` outside a field reference that is not doubled.
    UnmatchedCloseBrace,
}

impl TemplateError {
    /// The error in words.
    pub open spec fn text(self) -> Seq<char> {
        match self {
            TemplateError::UnknownField(name) => "unknown key '"@ + name@ + "'"@,
            TemplateError::UnterminatedField => "unterminated field in template"@,
            TemplateError::NestedBrace => "nested brace in template"@,
            TemplateError::UnmatchedCloseBrace => "unmatched closing brace in template"@,
        }
    }

    /// The error in words.
    pub fn message(&self) -> (r: String)
        ensures
            r@ == self.text(),
    {
        match self {
            TemplateError::UnknownField(name) => {
                let mut text = "unknown key '".to_owned();
                text.append(name.as_str());
                text.append("'");
                text
            },
            TemplateError::UnterminatedField => "unterminated field in template".to_owned(),
            TemplateError::NestedBrace => "nested brace in template".to_owned(),
            TemplateError::UnmatchedCloseBrace => "unmatched closing brace in template".to_owned(),
        }
    }
}

/// `TemplateError` with the field name as a sequence of characters.
pub enum TemplateFault {
    UnknownField(Seq<char>),
    UnterminatedField,
    NestedBrace,
    UnmatchedCloseBrace,
}

impl View for TemplateError {
    type V = TemplateFault;

    open spec fn view(&self) -> TemplateFault {
        match self {
            TemplateError::UnknownField(name) => TemplateFault::UnknownField(name@),
            TemplateError::UnterminatedField => TemplateFault::UnterminatedField,
            TemplateError::NestedBrace => TemplateFault::NestedBrace,
            TemplateError::UnmatchedCloseBrace => TemplateFault::UnmatchedCloseBrace,
        }
    }
}

/// The result of parsing a template: its tokens in order, or the first fault.
pub type Parsed<E> = Result<Seq<Token<E>>, TemplateFault>;

/// Whether `c` is one of the two characters that the grammar gives a
/// meaning to.
pub open spec fn is_brace(c: char) -> bool {
    c == '{' || c == '}'
}

/// The position of the first brace at or after `from`, or the length of
/// `text` if there is none.
pub open spec fn next_brace(text: Seq<char>, from: int) -> int
    decreases text.len() - from,
{
    if from < 0 || from >= text.len() {
        text.len() as int
    } else if is_brace(text[from]) {
        from
    } else {
        next_brace(text, from + 1)
    }
}

/// `next_brace` looks forward only, and what lies before its result holds
/// no brace.
pub proof fn lemma_next_brace(text: Seq<char>, from: int)
    requires
        0 <= from <= text.len(),
    ensures
        from <= next_brace(text, from) <= text.len(),
        next_brace(text, from) < text.len() ==> is_brace(text[next_brace(text, from)]),
        forall|k: int| from <= k < next_brace(text, from) ==> !is_brace(#[trigger] text[k]),
    decreases text.len() - from,
{
    if from < text.len() && !is_brace(text[from]) {
        lemma_next_brace(text, from + 1);
    }
}

/// `tokens` followed by what `rest` holds; a fault in `rest` stays.
pub open spec fn attach<E>(tokens: Seq<Token<E>>, rest: Parsed<E>) -> Parsed<E> {
    match rest {
        Ok(more) => Ok(tokens + more),
        Err(fault) => Err(fault),
    }
}

/// The grammar, read from position `at` of `text` to its end.
///
/// * `{{` stands for the character `{`, and `}}` for `}`.
/// * `{name}` refers to the field `name`, which may hold any characters but
///   braces; a name that `fields` lacks is a fault.
/// * A `{` that opens a reference which the text never closes, a `{` inside
///   a name, and a single `}` outside a reference are faults.
/// * Every other character stands for itself.
pub open spec fn parse_from<E>(text: Seq<char>, fields: Seq<FieldDescriptor<E>>, at: int) -> Parsed<
    E,
>
    decreases text.len() - at,
{
    if at < 0 || at >= text.len() {
        Ok(Seq::empty())
    } else if text[at] == '{' {
        if at + 1 < text.len() && text[at + 1] == '{' {
            attach(seq![Token::Char('{')], parse_from(text, fields, at + 2))
        } else {
            let close = next_brace(text, at + 1);
            proof {
                lemma_next_brace(text, at + 1);
            }
            if close >= text.len() {
                Err(TemplateFault::UnterminatedField)
            } else if text[close] == '{' {
                Err(TemplateFault::NestedBrace)
            } else {
                let name = text.subrange(at + 1, close);
                match find_field(fields, name) {
                    None => Err(TemplateFault::UnknownField(name)),
                    Some(field) => attach(
                        seq![Token::Field(field)],
                        parse_from(text, fields, close + 1),
                    ),
                }
            }
        }
    } else if text[at] == '}' {
        if at + 1 < text.len() && text[at + 1] == '}' {
            attach(seq![Token::Char('}')], parse_from(text, fields, at + 2))
        } else {
            Err(TemplateFault::UnmatchedCloseBrace)
        }
    } else {
        attach(seq![Token::Char(char_at(text, at))], parse_from(text, fields, at + 1))
    }
}

/// The tokens of the template `text`, or the first fault in it.
pub open spec fn parse<E>(text: Seq<char>, fields: Seq<FieldDescriptor<E>>) -> Parsed<E> {
    parse_from(text, fields, 0)
}

/// One piece of a compiled template: text to emit as it stands, or a field
/// of the registry that the template was compiled against.
#[derive(Debug)]
pub enum Piece<'a, E> {
    Literal(String),
    Field(&'a FieldDescriptor<E>),
}

/// The tokens of a literal: its characters.
pub open spec fn literal_tokens<E>(text: Seq<char>) -> Seq<Token<E>>
    decreases text.len(),
{
    if text.len() == 0 {
        Seq::empty()
    } else {
        literal_tokens(text.drop_last()).push(Token::Char(char_at(text, text.len() - 1)))
    }
}

/// The tokens that one piece stands for.
pub open spec fn piece_tokens<'a, E>(piece: Piece<'a, E>) -> Seq<Token<E>> {
    match piece {
        Piece::Literal(text) => literal_tokens(text@),
        Piece::Field(field) => seq![Token::Field(*field)],
    }
}

/// The tokens that a sequence of pieces stands for.
pub open spec fn tokens_of<'a, E>(pieces: Seq<Piece<'a, E>>) -> Seq<Token<E>>
    decreases pieces.len(),
{
    if pieces.len() == 0 {
        Seq::empty()
    } else {
        tokens_of(pieces.drop_last()) + piece_tokens(pieces.last())
    }
}

/// No literal is empty, and no literal follows another: adjacent characters
/// share one piece.
pub open spec fn coalesced<'a, E>(pieces: Seq<Piece<'a, E>>) -> bool {
    forall|k: int|
        0 <= k < pieces.len() ==> (#[trigger] pieces[k] matches Piece::Literal(text) ==> text@.len()
            > 0 && (k + 1 < pieces.len() ==> pieces[k + 1] is Field))
}

/// A template that was checked against a registry: an ordered sequence of
/// pieces that holds no state of any render.
#[derive(Debug)]
pub struct CompiledTemplate<'a, E> {
    pieces: Vec<Piece<'a, E>>,
}

impl<'a, E> View for CompiledTemplate<'a, E> {
    type V = Seq<Piece<'a, E>>;

    closed spec fn view(&self) -> Seq<Piece<'a, E>> {
        self.pieces@
    }
}

impl<'a, E> CompiledTemplate<'a, E> {
    /// The tokens that this template stands for.
    pub open spec fn tokens(&self) -> Seq<Token<E>> {
        tokens_of(self@)
    }

    /// The pieces, in render order.
    pub fn pieces(&self) -> (r: &Vec<Piece<'a, E>>)
        ensures
            r@ == self@,
    {
        &self.pieces
    }
}

/// What has been compiled so far: the tokens of the finished pieces, then
/// those of the literal that is still growing.
spec fn gathered<'a, E>(pieces: Seq<Piece<'a, E>>, literal: Seq<char>) -> Seq<Token<E>> {
    tokens_of(pieces) + literal_tokens(literal)
}

/// Nothing gathered leaves the rest as it is.
proof fn lemma_gathered_nothing<'a, E: 'a>(rest: Parsed<E>)
    ensures
        attach(gathered(Seq::<Piece<'a, E>>::empty(), Seq::<char>::empty()), rest) == rest,
{
    let none = gathered(Seq::<Piece<'a, E>>::empty(), Seq::<char>::empty());
    assert(none =~= Seq::<Token<E>>::empty());
    if let Ok(more) = rest {
        assert(none + more =~= more);
    }
}

/// A character pushed on the growing literal is one more token, which may
/// then be taken from the front of the rest.
proof fn lemma_gathered_char<'a, E>(
    pieces: Seq<Piece<'a, E>>,
    literal: Seq<char>,
    c: char,
    rest: Parsed<E>,
)
    ensures
        attach(gathered(pieces, literal), attach(seq![Token::Char(c)], rest)) == attach(
            gathered(pieces, literal.push(c)),
            rest,
        ),
{
    assert(literal.push(c).drop_last() =~= literal);
    assert(gathered(pieces, literal.push(c)) =~= gathered(pieces, literal) + seq![Token::Char(c)]);
    if let Ok(more) = rest {
        assert(gathered(pieces, literal) + (seq![Token::Char(c)] + more) =~= (gathered(
            pieces,
            literal,
        ) + seq![Token::Char(c)]) + more);
    }
}

/// The growing literal may become a piece of its own.
proof fn lemma_gathered_flush<'a, E>(pieces: Seq<Piece<'a, E>>, literal: String)
    ensures
        gathered(pieces.push(Piece::Literal(literal)), Seq::<char>::empty()) == gathered(
            pieces,
            literal@,
        ),
{
    assert(pieces.push(Piece::Literal(literal)).drop_last() =~= pieces);
    assert(literal_tokens::<E>(Seq::<char>::empty()) =~= Seq::<Token<E>>::empty());
    assert(gathered(pieces.push(Piece::Literal(literal)), Seq::<char>::empty()) =~= gathered(
        pieces,
        literal@,
    ));
}

/// With no literal growing, a field pushed as a piece is one more token.
proof fn lemma_gathered_field<'a, E>(
    pieces: Seq<Piece<'a, E>>,
    field: &'a FieldDescriptor<E>,
    rest: Parsed<E>,
)
    ensures
        attach(
            gathered(pieces, Seq::<char>::empty()),
            attach(seq![Token::Field(*field)], rest),
        ) == attach(gathered(pieces.push(Piece::Field(field)), Seq::<char>::empty()), rest),
{
    assert(pieces.push(Piece::Field(field)).drop_last() =~= pieces);
    assert(literal_tokens::<E>(Seq::<char>::empty()) =~= Seq::<Token<E>>::empty());
    let before = gathered(pieces, Seq::<char>::empty());
    let after = gathered(pieces.push(Piece::Field(field)), Seq::<char>::empty());
    assert(after =~= before + seq![Token::Field(*field)]);
    if let Ok(more) = rest {
        assert(before + (seq![Token::Field(*field)] + more) =~= after + more);
    }
}

/// At the end nothing is left to attach.
proof fn lemma_gathered_end<'a, E>(pieces: Seq<Piece<'a, E>>)
    ensures
        attach(
            gathered(pieces, Seq::<char>::empty()),
            Ok::<Seq<Token<E>>, TemplateFault>(Seq::empty()),
        ) == Ok::<Seq<Token<E>>, TemplateFault>(tokens_of(pieces)),
{
    assert(literal_tokens::<E>(Seq::<char>::empty()) =~= Seq::<Token<E>>::empty());
    assert(gathered(pieces, Seq::<char>::empty()) + Seq::<Token<E>>::empty() =~= tokens_of(
        pieces,
    ));
}

/// Compiles `template` against `registry`.
///
/// The result holds the tokens that the grammar gives for the template, with
/// every field resolved to its descriptor in `registry` and adjacent literal
/// characters joined; where the grammar finds a fault, that fault is returned.
pub fn compile<'a, E>(template: &str, registry: &'a FieldRegistry<E>) -> (r: Result<
    CompiledTemplate<'a, E>,
    TemplateError,
>)
    ensures
        match r {
            Ok(compiled) => parse(template@, registry@) == Ok::<Seq<Token<E>>, TemplateFault>(
                compiled.tokens(),
            ) && coalesced(compiled@),
            Err(error) => parse(template@, registry@) == Err::<Seq<Token<E>>, TemplateFault>(
                error@,
            ),
        },
{
    let chars = chars_of(template);
    let n = chars.len();
    let mut pieces: Vec<Piece<'a, E>> = Vec::new();
    let mut literal = String::new();
    let mut i: usize = 0;
    proof {
        lemma_gathered_nothing::<'a, E>(parse(template@, registry@));
        assert(pieces@ =~= Seq::<Piece<'a, E>>::empty());
    }
    while i < n
        invariant
            i <= n,
            n == chars.len(),
            chars@ == template@,
            parse(template@, registry@) == attach(
                gathered(pieces@, literal@),
                parse_from(template@, registry@, i as int),
            ),
            coalesced(pieces@),
            pieces@.len() > 0 ==> pieces@.last() is Field,
        decreases n - i,
    {
        let c = chars[i];
        if c == '{' {
            if i + 1 < n && chars[i + 1] == '{' {
                proof {
                    lemma_gathered_char(
                        pieces@,
                        literal@,
                        '{',
                        parse_from(template@, registry@, i + 2),
                    );
                }
                literal.push('{');
                i += 2;
            } else {
                let mut j: usize = i + 1;
                let mut name = String::new();
                proof {
                    assert(name@ =~= chars@.subrange(i + 1, j as int));
                }
                while j < n && chars[j] != '{' && chars[j] != '}'
                    invariant
                        i + 1 <= j <= n,
                        n == chars.len(),
                        name@ == chars@.subrange(i + 1, j as int),
                        next_brace(chars@, i + 1) == next_brace(chars@, j as int),
                    decreases n - j,
                {
                    proof {
                        assert(chars@.subrange(i + 1, j as int).push(chars@[j as int])
                            =~= chars@.subrange(i + 1, j + 1));
                    }
                    name.push(chars[j]);
                    j += 1;
                }
                if j >= n {
                    return Err(TemplateError::UnterminatedField);
                }
                if chars[j] == '{' {
                    return Err(TemplateError::NestedBrace);
                }
                match registry.lookup(name.as_str()) {
                    None => {
                        return Err(TemplateError::UnknownField(name));
                    },
                    Some(field) => {
                        if !literal.as_str().is_empty() {
                            proof {
                                lemma_gathered_flush(pieces@, literal);
                            }
                            pieces.push(Piece::Literal(literal));
                            literal = String::new();
                        }
                        proof {
                            assert(literal@ =~= Seq::<char>::empty());
                            lemma_gathered_field(
                                pieces@,
                                field,
                                parse_from(template@, registry@, j + 1),
                            );
                        }
                        pieces.push(Piece::Field(field));
                        i = j + 1;
                    },
                }
            }
        } else if c == '}' {
            if i + 1 < n && chars[i + 1] == '}' {
                proof {
                    lemma_gathered_char(
                        pieces@,
                        literal@,
                        '}',
                        parse_from(template@, registry@, i + 2),
                    );
                }
                literal.push('}');
                i += 2;
            } else {
                return Err(TemplateError::UnmatchedCloseBrace);
            }
        } else {
            proof {
                lemma_gathered_char(
                    pieces@,
                    literal@,
                    c,
                    parse_from(template@, registry@, i + 1),
                );
            }
            literal.push(c);
            i += 1;
        }
    }
    if !literal.as_str().is_empty() {
        proof {
            lemma_gathered_flush(pieces@, literal);
        }
        pieces.push(Piece::Literal(literal));
    } else {
        proof {
            assert(literal@ =~= Seq::<char>::empty());
        }
    }
    proof {
        lemma_gathered_end(pieces@);
    }
    Ok(CompiledTemplate { pieces })
}

/// Why a render is abandoned.
#[derive(Clone, Debug, PartialEq, Eq)]
pub enum RenderError {
    /// The extractor of the named field had nothing for this record.
    MissingField(String),
}

impl RenderError {
    /// The error in words.
    pub open spec fn text(self) -> Seq<char> {
        match self {
            RenderError::MissingField(name) => "no data for key '"@ + name@ + "'"@,
        }
    }

    /// The error in words.
    pub fn message(&self) -> (r: String)
        ensures
            r@ == self.text(),
    {
        match self {
            RenderError::MissingField(name) => {
                let mut text = "no data for key '".to_owned();
                text.append(name.as_str());
                text.append("'");
                text
            },
        }
    }
}

/// `RenderError` with the field name as a sequence of characters.
pub enum RenderFault {
    MissingField(Seq<char>),
}

impl View for RenderError {
    type V = RenderFault;

    open spec fn view(&self) -> RenderFault {
        match self {
            RenderError::MissingField(name) => RenderFault::MissingField(name@),
        }
    }
}

/// The result of a render: the whole text, or the first fault.
pub type Rendered = Result<Seq<char>, RenderFault>;

/// `text` with every path separator `/` replaced by `_`.
pub open spec fn sanitized(text: Seq<char>) -> Seq<char> {
    text.map_values(|c: char| if c == '/' { '_' } else { c })
}

/// The text that `tokens` give for the record `meta`: every character as it
/// stands and every field by its extractor, sanitized. The first field whose
/// extractor has nothing is the fault, and no text is returned then.
pub open spec fn render_tokens<M, E: Extractor<M>>(tokens: Seq<Token<E>>, meta: &M) -> Rendered
    decreases tokens.len(),
{
    if tokens.len() == 0 {
        Ok(Seq::empty())
    } else {
        match render_tokens(tokens.drop_last(), meta) {
            Err(fault) => Err(fault),
            Ok(text) => match tokens.last() {
                Token::Char(c) => Ok(text.push(c)),
                Token::Field(field) => match field.extractor.value(meta) {
                    Some(value) => Ok(text + sanitized(value)),
                    None => Err(RenderFault::MissingField(field.name@)),
                },
            },
        }
    }
}

/// Replaces every `/` in `text` by `_`.
pub fn sanitize(text: &str) -> (r: String)
    ensures
        r@ == sanitized(text@),
{
    let chars = chars_of(text);
    let mut out = String::new();
    let mut i: usize = 0;
    while i < chars.len()
        invariant
            i <= chars.len(),
            chars@ == text@,
            out@ == sanitized(text@.take(i as int)),
        decreases chars.len() - i,
    {
        let c = chars[i];
        proof {
            assert(sanitized(text@.take(i + 1)) =~= sanitized(text@.take(i as int)).push(
                if c == '/' {
                    '_'
                } else {
                    c
                },
            ));
        }
        if c == '/' {
            out.push('_');
        } else {
            out.push(c);
        }
        i += 1;
    }
    proof {
        assert(text@.take(i as int) =~= text@);
    }
    out
}

/// The tokens of two runs of pieces, one after the other.
pub proof fn lemma_tokens_concat<'a, E>(first: Seq<Piece<'a, E>>, second: Seq<Piece<'a, E>>)
    ensures
        tokens_of(first + second) == tokens_of(first) + tokens_of(second),
    decreases second.len(),
{
    if second.len() == 0 {
        assert(first + second =~= first);
        assert(tokens_of(first) + tokens_of(second) =~= tokens_of(first));
    } else {
        lemma_tokens_concat(first, second.drop_last());
        assert((first + second).drop_last() =~= first + second.drop_last());
        assert((first + second).last() == second.last());
        assert(tokens_of(first + second) =~= tokens_of(first) + tokens_of(second));
    }
}

/// A render that has met a fault keeps it, whatever follows.
pub proof fn lemma_render_fault_stays<M, E: Extractor<M>>(
    tokens: Seq<Token<E>>,
    more: Seq<Token<E>>,
    meta: &M,
)
    requires
        render_tokens(tokens, meta) is Err,
    ensures
        render_tokens(tokens + more, meta) == render_tokens(tokens, meta),
    decreases more.len(),
{
    if more.len() == 0 {
        assert(tokens + more =~= tokens);
    } else {
        lemma_render_fault_stays(tokens, more.drop_last(), meta);
        assert((tokens + more).drop_last() =~= tokens + more.drop_last());
    }
}

/// Literal text after a render that went well is added as it stands.
pub proof fn lemma_render_literal<M, E: Extractor<M>>(
    tokens: Seq<Token<E>>,
    literal: Seq<char>,
    meta: &M,
)
    requires
        render_tokens(tokens, meta) is Ok,
    ensures
        render_tokens(tokens + literal_tokens(literal), meta) == Ok::<Seq<char>, RenderFault>(
            render_tokens(tokens, meta)->Ok_0 + literal,
        ),
    decreases literal.len(),
{
    let text = render_tokens(tokens, meta)->Ok_0;
    if literal.len() == 0 {
        assert(tokens + literal_tokens::<E>(literal) =~= tokens);
        assert(text + literal =~= text);
    } else {
        lemma_render_literal(tokens, literal.drop_last(), meta);
        let all = tokens + literal_tokens::<E>(literal);
        assert(all.drop_last() =~= tokens + literal_tokens::<E>(literal.drop_last()));
        assert(all.last() == Token::<E>::Char(literal.last()));
        assert((text + literal.drop_last()).push(literal.last()) =~= text + literal);
    }
}

/// Renders `template` for the record `meta`.
///
/// The result is the text that the template's tokens give for `meta`; where
/// a field has no value, the error names the first such field.
pub fn render<'a, M, E: Extractor<M>>(template: &CompiledTemplate<'a, E>, meta: &M) -> (r: Result<
    String,
    RenderError,
>)
    ensures
        match r {
            Ok(text) => render_tokens(template.tokens(), meta) == Ok::<Seq<char>, RenderFault>(
                text@,
            ),
            Err(error) => render_tokens(template.tokens(), meta) == Err::<Seq<char>, RenderFault>(
                error@,
            ),
        },
{
    let pieces = template.pieces();
    let mut out = String::new();
    let mut k: usize = 0;
    proof {
        assert(pieces@.take(0) =~= Seq::<Piece<'a, E>>::empty());
    }
    while k < pieces.len()
        invariant
            k <= pieces.len(),
            pieces@ == template@,
            render_tokens(tokens_of(pieces@.take(k as int)), meta) == Ok::<Seq<char>, RenderFault>(
                out@,
            ),
        decreases pieces.len() - k,
    {
        let ghost before = tokens_of(pieces@.take(k as int));
        proof {
            assert(pieces@.take(k + 1) =~= pieces@.take(k as int).push(pieces@[k as int]));
            assert(pieces@.take(k + 1).drop_last() =~= pieces@.take(k as int));
        }
        match &pieces[k] {
            Piece::Literal(text) => {
                proof {
                    lemma_render_literal(before, text@, meta);
                }
                out.append(text.as_str());
            },
            Piece::Field(field) => {
                proof {
                    assert((before + seq![Token::Field(**field)]).drop_last() =~= before);
                }
                match field.extractor.extract(meta) {
                    Some(value) => {
                        let clean = sanitize(value.as_str());
                        out.append(clean.as_str());
                    },
                    None => {
                        proof {
                            assert(pieces@ =~= pieces@.take(k + 1) + pieces@.skip(k + 1));
                            lemma_tokens_concat(pieces@.take(k + 1), pieces@.skip(k + 1));
                            lemma_render_fault_stays(
                                tokens_of(pieces@.take(k + 1)),
                                tokens_of(pieces@.skip(k + 1)),
                                meta,
                            );
                        }
                        return Err(RenderError::MissingField(field.name.clone()));
                    },
                }
            },
        }
        k += 1;
    }
    proof {
        assert(pieces@.take(k as int) =~= pieces@);
    }
    Ok(out)
}

} // verus!
