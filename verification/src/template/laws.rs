//! What holds of every template: how the grammar reads a text that is put
//! together from parts, that escaped text renders as itself, and which
//! texts are refused.

use crate::template::{
    attach, find_field, find_from, is_brace, lemma_next_brace, lemma_render_literal,
    literal_tokens, next_brace, parse, parse_from, render_tokens, sanitized, Extractor,
    FieldDescriptor, Parsed, RenderFault, TemplateFault, Token,
};
use crate::util::char_at;
use vstd::prelude::*;

verus! {

/// Attaching in two steps is attaching the concatenation.
pub proof fn lemma_attach_attach<E>(first: Seq<Token<E>>, second: Seq<Token<E>>, rest: Parsed<E>)
    ensures
        attach(first, attach(second, rest)) == attach(first + second, rest),
{
    if let Ok(more) = rest {
        assert(first + (second + more) =~= (first + second) + more);
    }
}

/// Where the characters from `from` up to `end` hold no brace and a brace, or
/// the end of the text, stands at `end`, the next brace is at `end`.
pub proof fn lemma_next_brace_at(text: Seq<char>, from: int, end: int)
    requires
        0 <= from <= end <= text.len(),
        forall|k: int| from <= k < end ==> !is_brace(#[trigger] text[k]),
        end < text.len() ==> is_brace(text[end]),
    ensures
        next_brace(text, from) == end,
    decreases end - from,
{
    if from < end {
        lemma_next_brace_at(text, from + 1, end);
    }
}

/// What the grammar reads from a position on depends on the text from that
/// position on alone.
pub proof fn lemma_parse_shift<E>(
    before: Seq<char>,
    text: Seq<char>,
    fields: Seq<FieldDescriptor<E>>,
    at: int,
)
    requires
        0 <= at <= text.len(),
    ensures
        parse_from(before + text, fields, before.len() + at) == parse_from(text, fields, at),
    decreases text.len() - at,
{
    let whole = before + text;
    let shift = before.len() as int;
    if at < text.len() {
        assert(whole[shift + at] == text[at]);
        if at + 1 < text.len() {
            assert(whole[shift + at + 1] == text[at + 1]);
            lemma_parse_shift(before, text, fields, at + 2);
        }
        lemma_parse_shift(before, text, fields, at + 1);
        if text[at] == '{' && !(at + 1 < text.len() && text[at + 1] == '{') {
            let close = next_brace(text, at + 1);
            lemma_next_brace(text, at + 1);
            assert forall|k: int| shift + at + 1 <= k < shift + close implies !is_brace(
                #[trigger] whole[k],
            ) by {
                assert(whole[k] == text[k - shift]);
            }
            if close < text.len() {
                assert(whole[shift + close] == text[close]);
            }
            lemma_next_brace_at(whole, shift + at + 1, shift + close);
            if close < text.len() && text[close] == '}' {
                assert(whole.subrange(shift + at + 1, shift + close) =~= text.subrange(
                    at + 1,
                    close,
                ));
                lemma_parse_shift(before, text, fields, close + 1);
            }
        }
    }
}

/// A template that parses may be followed by any text: its tokens stay, and
/// what follows is read as if it stood alone.
pub proof fn lemma_parse_prefix<E>(
    first: Seq<char>,
    rest: Seq<char>,
    fields: Seq<FieldDescriptor<E>>,
    at: int,
)
    requires
        0 <= at <= first.len(),
        parse_from(first, fields, at) is Ok,
    ensures
        parse_from(first + rest, fields, at) == attach(
            parse_from(first, fields, at)->Ok_0,
            parse(rest, fields),
        ),
    decreases first.len() - at,
{
    let whole = first + rest;
    if at == first.len() {
        lemma_parse_shift(first, rest, fields, 0);
        let none = parse_from(first, fields, at)->Ok_0;
        if let Ok(more) = parse(rest, fields) {
            assert(none + more =~= more);
        }
    } else {
        assert(whole[at] == first[at]);
        if at + 1 < first.len() {
            assert(whole[at + 1] == first[at + 1]);
        }
        if first[at] == '{' {
            if at + 1 < first.len() && first[at + 1] == '{' {
                lemma_parse_prefix(first, rest, fields, at + 2);
                lemma_attach_attach(
                    seq![Token::<E>::Char('{')],
                    parse_from(first, fields, at + 2)->Ok_0,
                    parse(rest, fields),
                );
            } else {
                let close = next_brace(first, at + 1);
                lemma_next_brace(first, at + 1);
                assert forall|k: int| at + 1 <= k < close implies !is_brace(
                    #[trigger] whole[k],
                ) by {
                    assert(whole[k] == first[k]);
                }
                assert(whole[close] == first[close]);
                lemma_next_brace_at(whole, at + 1, close);
                assert(whole.subrange(at + 1, close) =~= first.subrange(at + 1, close));
                let field = find_field(fields, first.subrange(at + 1, close))->Some_0;
                lemma_parse_prefix(first, rest, fields, close + 1);
                lemma_attach_attach(
                    seq![Token::Field(field)],
                    parse_from(first, fields, close + 1)->Ok_0,
                    parse(rest, fields),
                );
            }
        } else if first[at] == '}' {
            lemma_parse_prefix(first, rest, fields, at + 2);
            lemma_attach_attach(
                seq![Token::<E>::Char('}')],
                parse_from(first, fields, at + 2)->Ok_0,
                parse(rest, fields),
            );
        } else {
            lemma_parse_prefix(first, rest, fields, at + 1);
            lemma_attach_attach(
                seq![Token::<E>::Char(char_at(first, at))],
                parse_from(first, fields, at + 1)->Ok_0,
                parse(rest, fields),
            );
        }
    }
}

/// `text` with every brace doubled: the template that stands for `text`.
pub open spec fn escaped(text: Seq<char>) -> Seq<char>
    decreases text.len(),
{
    if text.len() == 0 {
        Seq::empty()
    } else {
        let c = char_at(text, text.len() - 1);
        escaped(text.drop_last()) + if is_brace(c) {
            seq![c, c]
        } else {
            seq![c]
        }
    }
}

/// A text whose braces are doubled is a template without fields, whatever
/// the registry holds, and it renders as that text for every record.
pub proof fn lemma_escaped_text_renders_as_itself<M, E: Extractor<M>>(
    text: Seq<char>,
    fields: Seq<FieldDescriptor<E>>,
    meta: &M,
)
    ensures
        parse(escaped(text), fields) == Ok::<Seq<Token<E>>, TemplateFault>(literal_tokens(text)),
        render_tokens(literal_tokens::<E>(text), meta) == Ok::<Seq<char>, RenderFault>(text),
    decreases text.len(),
{
    let none = Seq::<Token<E>>::empty();
    lemma_render_literal(none, text, meta);
    assert(none + literal_tokens::<E>(text) =~= literal_tokens::<E>(text));
    assert(Seq::<char>::empty() + text =~= text);
    if text.len() > 0 {
        let c = char_at(text, text.len() - 1);
        let unit = if is_brace(c) {
            seq![c, c]
        } else {
            seq![c]
        };
        lemma_escaped_text_renders_as_itself(text.drop_last(), fields, meta);
        lemma_parse_prefix(escaped(text.drop_last()), unit, fields, 0);
        reveal_with_fuel(parse_from, 3);
        assert(parse(unit, fields) == Ok::<Seq<Token<E>>, TemplateFault>(
            seq![Token::Char(c)] + none,
        ));
        assert(literal_tokens::<E>(text.drop_last()) + (seq![Token::Char(c)] + none)
            =~= literal_tokens::<E>(text));
    }
}

/// What a lookup finds bears the name that was looked up.
pub proof fn lemma_found_has_name<E>(fields: Seq<FieldDescriptor<E>>, name: Seq<char>, from: int)
    requires
        0 <= from,
        find_from(fields, name, from) is Some,
    ensures
        find_from(fields, name, from)->Some_0.name@ == name,
    decreases fields.len() - from,
{
    if from < fields.len() && fields[from].name@ != name {
        lemma_found_has_name(fields, name, from + 1);
    }
}

/// Every field of a template that parses is a field of the registry: no
/// render meets a name that the registry lacks.
pub proof fn lemma_parsed_fields_are_registered<E>(
    text: Seq<char>,
    fields: Seq<FieldDescriptor<E>>,
    at: int,
)
    requires
        0 <= at <= text.len(),
        parse_from(text, fields, at) is Ok,
    ensures
        forall|k: int|
            #![trigger parse_from(text, fields, at)->Ok_0[k]]
            0 <= k < parse_from(text, fields, at)->Ok_0.len() ==> (parse_from(
                text,
                fields,
                at,
            )->Ok_0[k] matches Token::Field(field) ==> find_field(fields, field.name@) == Some(
                field,
            )),
    decreases text.len() - at,
{
    if at < text.len() {
        if text[at] == '{' && !(at + 1 < text.len() && text[at + 1] == '{') {
            let close = next_brace(text, at + 1);
            lemma_next_brace(text, at + 1);
            lemma_parsed_fields_are_registered(text, fields, close + 1);
            lemma_found_has_name(fields, text.subrange(at + 1, close), 0);
        } else if is_brace(text[at]) {
            lemma_parsed_fields_are_registered(text, fields, at + 2);
        } else {
            lemma_parsed_fields_are_registered(text, fields, at + 1);
        }
    }
}

/// A reference to a field that the registry lacks is refused when the
/// template is compiled: after any template that parses, `{name}` with an
/// unknown name is the fault, whatever follows it.
pub proof fn lemma_unknown_field_is_refused<E>(
    before: Seq<char>,
    name: Seq<char>,
    after: Seq<char>,
    fields: Seq<FieldDescriptor<E>>,
)
    requires
        parse(before, fields) is Ok,
        forall|k: int| 0 <= k < name.len() ==> !is_brace(#[trigger] name[k]),
        find_field(fields, name) is None,
    ensures
        parse(before + seq!['{'] + name + seq!['}'] + after, fields) == Err::<
            Seq<Token<E>>,
            TemplateFault,
        >(TemplateFault::UnknownField(name)),
{
    let tail = seq!['{'] + name + seq!['}'] + after;
    assert(before + seq!['{'] + name + seq!['}'] + after =~= before + tail);
    lemma_parse_prefix(before, tail, fields, 0);
    let close = 1 + name.len() as int;
    assert forall|k: int| 1 <= k < close implies !is_brace(#[trigger] tail[k]) by {
        assert(tail[k] == name[k - 1]);
    }
    assert(tail[close] == '}');
    lemma_next_brace_at(tail, 1, close);
    assert(tail.subrange(1, close) =~= name);
    assert(tail[0] == '{');
    if name.len() > 0 {
        assert(tail[1] == name[0]);
    }
}

/// A template that ends inside a field reference is refused: after any
/// template that parses, a `{` followed by characters that are no braces up
/// to the end of the text is an unterminated field.
pub proof fn lemma_unterminated_field_is_refused<E>(
    before: Seq<char>,
    name: Seq<char>,
    fields: Seq<FieldDescriptor<E>>,
)
    requires
        parse(before, fields) is Ok,
        forall|k: int| 0 <= k < name.len() ==> !is_brace(#[trigger] name[k]),
    ensures
        parse(before + seq!['{'] + name, fields) == Err::<Seq<Token<E>>, TemplateFault>(
            TemplateFault::UnterminatedField,
        ),
{
    let tail = seq!['{'] + name;
    assert(before + seq!['{'] + name =~= before + tail);
    lemma_parse_prefix(before, tail, fields, 0);
    let end = 1 + name.len() as int;
    assert forall|k: int| 1 <= k < end implies !is_brace(#[trigger] tail[k]) by {
        assert(tail[k] == name[k - 1]);
    }
    lemma_next_brace_at(tail, 1, end);
    assert(tail[0] == '{');
    if name.len() > 0 {
        assert(tail[1] == name[0]);
    }
}

/// A `{` inside a field reference whose name has begun is refused.
pub proof fn lemma_nested_brace_is_refused<E>(
    before: Seq<char>,
    name: Seq<char>,
    after: Seq<char>,
    fields: Seq<FieldDescriptor<E>>,
)
    requires
        parse(before, fields) is Ok,
        name.len() > 0,
        forall|k: int| 0 <= k < name.len() ==> !is_brace(#[trigger] name[k]),
    ensures
        parse(before + seq!['{'] + name + seq!['{'] + after, fields) == Err::<
            Seq<Token<E>>,
            TemplateFault,
        >(TemplateFault::NestedBrace),
{
    let tail = seq!['{'] + name + seq!['{'] + after;
    assert(before + seq!['{'] + name + seq!['{'] + after =~= before + tail);
    lemma_parse_prefix(before, tail, fields, 0);
    let close = 1 + name.len() as int;
    assert forall|k: int| 1 <= k < close implies !is_brace(#[trigger] tail[k]) by {
        assert(tail[k] == name[k - 1]);
    }
    assert(tail[close] == '{');
    lemma_next_brace_at(tail, 1, close);
    assert(tail[0] == '{');
    assert(tail[1] == name[0]);
}

/// A `}` outside a field reference that no second `}` follows is refused.
pub proof fn lemma_unmatched_close_brace_is_refused<E>(
    before: Seq<char>,
    after: Seq<char>,
    fields: Seq<FieldDescriptor<E>>,
)
    requires
        parse(before, fields) is Ok,
        after.len() > 0 ==> after[0] != '}',
    ensures
        parse(before + seq!['}'] + after, fields) == Err::<Seq<Token<E>>, TemplateFault>(
            TemplateFault::UnmatchedCloseBrace,
        ),
{
    let tail = seq!['}'] + after;
    assert(before + seq!['}'] + after =~= before + tail);
    lemma_parse_prefix(before, tail, fields, 0);
    assert(tail[0] == '}');
    if after.len() > 0 {
        assert(tail[1] == after[0]);
    }
}

/// A name that no descriptor bears is not found.
pub proof fn lemma_absent_name_is_not_found<E>(
    fields: Seq<FieldDescriptor<E>>,
    name: Seq<char>,
    from: int,
)
    requires
        0 <= from,
        forall|k: int| from <= k < fields.len() ==> (#[trigger] fields[k]).name@ != name,
    ensures
        find_from(fields, name, from) is None,
    decreases fields.len() - from,
{
    if from < fields.len() {
        lemma_absent_name_is_not_found(fields, name, from + 1);
    }
}

/// The first descriptor that bears a name is the one that is found.
pub proof fn lemma_first_match_is_found<E>(
    fields: Seq<FieldDescriptor<E>>,
    name: Seq<char>,
    from: int,
    at: int,
)
    requires
        0 <= from <= at < fields.len(),
        fields[at].name@ == name,
        forall|k: int| from <= k < at ==> (#[trigger] fields[k]).name@ != name,
    ensures
        find_from(fields, name, from) == Some(fields[at]),
    decreases at - from,
{
    if from < at {
        lemma_first_match_is_found(fields, name, from + 1, at);
    }
}

/// A sanitized text holds no `/`, and sanitizing it once more changes
/// nothing.
pub proof fn lemma_sanitized_is_clean(text: Seq<char>)
    ensures
        forall|k: int| 0 <= k < sanitized(text).len() ==> #[trigger] sanitized(text)[k] != '/',
        sanitized(sanitized(text)) == sanitized(text),
{
    assert(sanitized(sanitized(text)) =~= sanitized(text));
}

/// No field brings a path separator into a name: where the template itself
/// holds no `/`, the rendered text holds none.
pub proof fn lemma_fields_add_no_separator<M, E: Extractor<M>>(tokens: Seq<Token<E>>, meta: &M)
    requires
        forall|k: int| 0 <= k < tokens.len() ==> #[trigger] tokens[k] != Token::<E>::Char('/'),
        render_tokens(tokens, meta) is Ok,
    ensures
        forall|k: int|
            0 <= k < render_tokens(tokens, meta)->Ok_0.len() ==> #[trigger] render_tokens(
                tokens,
                meta,
            )->Ok_0[k] != '/',
    decreases tokens.len(),
{
    if tokens.len() > 0 {
        let before = tokens.drop_last();
        assert forall|k: int| 0 <= k < before.len() implies #[trigger] before[k] != Token::<
            E,
        >::Char('/') by {
            assert(before[k] == tokens[k]);
        }
        lemma_fields_add_no_separator(before, meta);
        let text = render_tokens(before, meta)->Ok_0;
        let last = tokens[tokens.len() - 1];
        assert(tokens.last() == last);
        match last {
            Token::Char(c) => {
                assert(c != '/');
            },
            Token::Field(field) => {
                lemma_sanitized_is_clean(field.extractor.value(meta)->Some_0);
            },
        }
    }
}

} // verus!
