use crate::line_tokenizer::{
    grow_last, line_tokens, scan_char, scan_from, scan_start, ScanFault, ScanPoint, State,
};
use vstd::prelude::*;

verus! {

/// `field` with every enclosure character written twice.
pub open spec fn doubled(field: Seq<char>, encl: char) -> Seq<char>
    decreases field.len(),
{
    if field.len() == 0 {
        Seq::empty()
    } else if field[0] == encl {
        seq![encl, encl] + doubled(field.drop_first(), encl)
    } else {
        seq![field[0]] + doubled(field.drop_first(), encl)
    }
}

/// `field` as an enclosed field: between two enclosure characters, with
/// every enclosure character of its own written twice.
pub open spec fn enclosed(field: Seq<char>, encl: char) -> Seq<char> {
    seq![encl] + doubled(field, encl) + seq![encl]
}

/// `field` as it is written in a line: enclosed or bare.
pub open spec fn written(field: Seq<char>, encl: Option<char>, quote: bool) -> Seq<char> {
    if quote {
        enclosed(field, encl->Some_0)
    } else {
        field
    }
}

/// Whether `field` holds neither the delimiter nor the enclosure
/// character, so that it can be written bare.
pub open spec fn is_plain(field: Seq<char>, delim: char, encl: Option<char>) -> bool {
    forall|i: int| 0 <= i < field.len() ==> field[i] != delim && encl != Some(#[trigger] field[i])
}

/// The line of `fields`: each field written enclosed or bare, as `quotes`
/// says, with the delimiter between one field and the next.
pub open spec fn joined(
    fields: Seq<Seq<char>>,
    quotes: Seq<bool>,
    delim: char,
    encl: Option<char>,
) -> Seq<char>
    decreases fields.len(),
{
    if fields.len() == 0 {
        Seq::empty()
    } else if fields.len() == 1 {
        written(fields[0], encl, quotes[0])
    } else {
        joined(fields.drop_last(), quotes.drop_last(), delim, encl) + seq![delim] + written(
            fields.last(),
            encl,
            quotes.last(),
        )
    }
}

/// Whether `fields` can be written as `quotes` says: an enclosed field
/// takes an enclosure character that is not the delimiter, a bare field is
/// plain.
pub open spec fn can_be_written(
    fields: Seq<Seq<char>>,
    quotes: Seq<bool>,
    delim: char,
    encl: Option<char>,
) -> bool {
    &&& quotes.len() == fields.len()
    &&& forall|i: int|
        0 <= i < fields.len() ==> if #[trigger] quotes[i] {
            encl is Some && encl != Some(delim)
        } else {
            is_plain(fields[i], delim, encl)
        }
}

/// Reading a text that is made of two parts is reading the first part and
/// then, from where that ended, the second.
pub proof fn lemma_scan_concat(
    delim: char,
    encl: Option<char>,
    p: ScanPoint,
    a: Seq<char>,
    b: Seq<char>,
)
    ensures
        scan_from(delim, encl, p, a + b) == (match scan_from(delim, encl, p, a) {
            Ok(q) => scan_from(delim, encl, q, b),
            Err(f) => Err(f),
        }),
    decreases a.len(),
{
    if a.len() == 0 {
        assert(a + b =~= b);
    } else {
        assert((a + b)[0] == a[0]);
        assert((a + b).drop_first() =~= a.drop_first() + b);
        match scan_char(delim, encl, p, a[0]) {
            Ok(q) => {
                lemma_scan_concat(delim, encl, q, a.drop_first(), b);
            },
            Err(_) => {},
        }
    }
}

/// `tokens` with `more` appended to the last of them.
spec fn last_grown(tokens: Seq<Seq<char>>, more: Seq<char>) -> Seq<Seq<char>> {
    tokens.update(tokens.len() - 1, tokens.last() + more)
}

proof fn lemma_scan_plain_rest(
    delim: char,
    encl: Option<char>,
    tokens: Seq<Seq<char>>,
    rest: Seq<char>,
)
    requires
        tokens.len() > 0,
        is_plain(rest, delim, encl),
    ensures
        scan_from(delim, encl, ScanPoint { state: State::Field, tokens }, rest) == Ok::<
            ScanPoint,
            ScanFault,
        >(ScanPoint { state: State::Field, tokens: last_grown(tokens, rest) }),
    decreases rest.len(),
{
    if rest.len() == 0 {
        assert(last_grown(tokens, rest) =~= tokens);
    } else {
        let c = rest[0];
        assert(c != delim && encl != Some(c));
        let next = grow_last(tokens, c);
        assert(is_plain(rest.drop_first(), delim, encl)) by {
            assert forall|i: int| 0 <= i < rest.drop_first().len() implies rest.drop_first()[i]
                != delim && encl != Some(#[trigger] rest.drop_first()[i]) by {
                assert(rest.drop_first()[i] == rest[i + 1]);
            }
        }
        lemma_scan_plain_rest(delim, encl, next, rest.drop_first());
        assert(tokens.last().push(c) + rest.drop_first() =~= tokens.last() + rest);
        assert(last_grown(next, rest.drop_first()) =~= last_grown(tokens, rest));
    }
}

/// A bare field that is not empty, read where a field can begin, is one
/// more token, and leaves the tokenizer inside a bare field.
proof fn lemma_scan_bare(delim: char, encl: Option<char>, p: ScanPoint, field: Seq<char>)
    requires
        p.state == State::Start || p.state == State::Scan,
        field.len() > 0,
        is_plain(field, delim, encl),
    ensures
        scan_from(delim, encl, p, field) == Ok::<ScanPoint, ScanFault>(
            ScanPoint { state: State::Field, tokens: p.tokens.push(field) },
        ),
{
    let c = field[0];
    assert(c != delim && encl != Some(c));
    let tokens = p.tokens.push(seq![c]);
    assert(is_plain(field.drop_first(), delim, encl)) by {
        assert forall|i: int| 0 <= i < field.drop_first().len() implies field.drop_first()[i]
            != delim && encl != Some(#[trigger] field.drop_first()[i]) by {
            assert(field.drop_first()[i] == field[i + 1]);
        }
    }
    lemma_scan_plain_rest(delim, encl, tokens, field.drop_first());
    assert(seq![c] + field.drop_first() =~= field);
    assert(last_grown(tokens, field.drop_first()) =~= p.tokens.push(field));
}

proof fn lemma_scan_doubled(
    delim: char,
    q: char,
    tokens: Seq<Seq<char>>,
    field: Seq<char>,
)
    requires
        tokens.len() > 0,
        q != delim,
    ensures
        scan_from(
            delim,
            Some(q),
            ScanPoint { state: State::QuotedField, tokens },
            doubled(field, q),
        ) == Ok::<ScanPoint, ScanFault>(
            ScanPoint { state: State::QuotedField, tokens: last_grown(tokens, field) },
        ),
    decreases field.len(),
{
    let encl = Some(q);
    let p = ScanPoint { state: State::QuotedField, tokens };
    if field.len() == 0 {
        assert(last_grown(tokens, field) =~= tokens);
    } else {
        let c = field[0];
        let next = grow_last(tokens, c);
        let after = ScanPoint { state: State::QuotedField, tokens: next };
        lemma_scan_doubled(delim, q, next, field.drop_first());
        assert(tokens.last().push(c) + field.drop_first() =~= tokens.last() + field);
        assert(last_grown(next, field.drop_first()) =~= last_grown(tokens, field));
        if c == q {
            let head = seq![q, q];
            let between = ScanPoint { state: State::QuoteInQuotedField, tokens };
            assert(scan_char(delim, encl, p, q) == Ok::<ScanPoint, ScanFault>(between));
            assert(scan_char(delim, encl, between, q) == Ok::<ScanPoint, ScanFault>(after));
            assert(head.drop_first() =~= seq![q]);
            assert(head.drop_first().drop_first() =~= Seq::<char>::empty());
            assert(scan_from(delim, encl, after, Seq::<char>::empty()) == Ok::<
                ScanPoint,
                ScanFault,
            >(after));
            assert(scan_from(delim, encl, between, head.drop_first()) == Ok::<
                ScanPoint,
                ScanFault,
            >(after));
            assert(scan_from(delim, encl, p, head) == Ok::<ScanPoint, ScanFault>(after));
            lemma_scan_concat(delim, encl, p, head, doubled(field.drop_first(), q));
        } else {
            let head = seq![c];
            assert(scan_char(delim, encl, p, c) == Ok::<ScanPoint, ScanFault>(after));
            assert(head.drop_first() =~= Seq::<char>::empty());
            assert(scan_from(delim, encl, after, head.drop_first()) == Ok::<
                ScanPoint,
                ScanFault,
            >(after));
            assert(scan_from(delim, encl, p, head) == Ok::<ScanPoint, ScanFault>(after));
            lemma_scan_concat(delim, encl, p, head, doubled(field.drop_first(), q));
        }
    }
}

/// An enclosed field, read where a field can begin, is one more token, and
/// leaves the tokenizer behind the closing enclosure character.
proof fn lemma_scan_enclosed(delim: char, q: char, p: ScanPoint, field: Seq<char>)
    requires
        p.state == State::Start || p.state == State::Scan,
        q != delim,
    ensures
        scan_from(delim, Some(q), p, enclosed(field, q)) == Ok::<ScanPoint, ScanFault>(
            ScanPoint { state: State::QuoteInQuotedField, tokens: p.tokens.push(field) },
        ),
{
    let encl = Some(q);
    let open = seq![q];
    let opened = ScanPoint { state: State::QuotedField, tokens: p.tokens.push(Seq::empty()) };
    let filled = ScanPoint { state: State::QuotedField, tokens: p.tokens.push(field) };
    let closed = ScanPoint { state: State::QuoteInQuotedField, tokens: p.tokens.push(field) };
    assert(scan_char(delim, encl, p, q) == Ok::<ScanPoint, ScanFault>(opened));
    assert(open.drop_first() =~= Seq::<char>::empty());
    assert(scan_from(delim, encl, opened, open.drop_first()) == Ok::<ScanPoint, ScanFault>(
        opened,
    ));
    assert(scan_from(delim, encl, p, open) == Ok::<ScanPoint, ScanFault>(opened));
    lemma_scan_doubled(delim, q, opened.tokens, field);
    assert(Seq::<char>::empty() + field =~= field);
    assert(last_grown(opened.tokens, field) =~= p.tokens.push(field));
    assert(scan_char(delim, encl, filled, q) == Ok::<ScanPoint, ScanFault>(closed));
    assert(scan_from(delim, encl, closed, open.drop_first()) == Ok::<ScanPoint, ScanFault>(
        closed,
    ));
    assert(scan_from(delim, encl, filled, open) == Ok::<ScanPoint, ScanFault>(closed));
    lemma_scan_concat(delim, encl, p, open, doubled(field, q));
    lemma_scan_concat(delim, encl, p, open + doubled(field, q), open);
}

/// Where the tokenizer stands behind the line of `fields`. A bare empty
/// field at the end has not become a token yet: it becomes one with the
/// next delimiter or the end of the line.
spec fn behind(fields: Seq<Seq<char>>, quotes: Seq<bool>) -> ScanPoint {
    if quotes.last() {
        ScanPoint { state: State::QuoteInQuotedField, tokens: fields }
    } else if fields.last().len() > 0 {
        ScanPoint { state: State::Field, tokens: fields }
    } else if fields.len() == 1 {
        ScanPoint { state: State::Start, tokens: fields.drop_last() }
    } else {
        ScanPoint { state: State::Scan, tokens: fields.drop_last() }
    }
}

proof fn lemma_scan_written(
    delim: char,
    encl: Option<char>,
    p: ScanPoint,
    field: Seq<char>,
    quote: bool,
)
    requires
        p.state == State::Start || p.state == State::Scan,
        quote ==> encl is Some && encl != Some(delim),
        !quote ==> is_plain(field, delim, encl),
    ensures
        scan_from(delim, encl, p, written(field, encl, quote)) == Ok::<ScanPoint, ScanFault>(
            if quote {
                ScanPoint { state: State::QuoteInQuotedField, tokens: p.tokens.push(field) }
            } else if field.len() > 0 {
                ScanPoint { state: State::Field, tokens: p.tokens.push(field) }
            } else {
                p
            },
        ),
{
    if quote {
        lemma_scan_enclosed(delim, encl->Some_0, p, field);
    } else if field.len() > 0 {
        lemma_scan_bare(delim, encl, p, field);
    }
}

proof fn lemma_scan_joined(
    fields: Seq<Seq<char>>,
    quotes: Seq<bool>,
    delim: char,
    encl: Option<char>,
)
    requires
        fields.len() > 0,
        can_be_written(fields, quotes, delim, encl),
    ensures
        scan_from(delim, encl, scan_start(), joined(fields, quotes, delim, encl)) == Ok::<
            ScanPoint,
            ScanFault,
        >(behind(fields, quotes)),
    decreases fields.len(),
{
    let last = fields.last();
    let quote = quotes.last();
    assert(quote == quotes[quotes.len() - 1]);
    assert(last == fields[fields.len() - 1]);
    if fields.len() == 1 {
        lemma_scan_written(delim, encl, scan_start(), last, quote);
        assert(seq![last] =~= fields);
        assert(scan_start().tokens.push(last) =~= fields);
        assert(fields.drop_last() =~= scan_start().tokens);
    } else {
        let before = fields.drop_last();
        let quotes_before = quotes.drop_last();
        assert(can_be_written(before, quotes_before, delim, encl)) by {
            assert forall|i: int| 0 <= i < before.len() implies if #[trigger] quotes_before[i] {
                encl is Some && encl != Some(delim)
            } else {
                is_plain(before[i], delim, encl)
            } by {
                assert(quotes_before[i] == quotes[i]);
                assert(before[i] == fields[i]);
            }
        }
        lemma_scan_joined(before, quotes_before, delim, encl);
        let head = joined(before, quotes_before, delim, encl);
        let sep = seq![delim];
        let tail = written(last, encl, quote);
        let p1 = behind(before, quotes_before);
        let p2 = ScanPoint { state: State::Scan, tokens: before };
        // the delimiter ends the field before it
        assert(scan_char(delim, encl, p1, delim) == Ok::<ScanPoint, ScanFault>(p2)) by {
            if p1.state == State::Start || p1.state == State::Scan {
                assert(before.last() =~= Seq::<char>::empty());
                assert(before.drop_last().push(Seq::empty()) =~= before);
            }
        }
        assert(sep.drop_first() =~= Seq::<char>::empty());
        assert(scan_from(delim, encl, p2, sep.drop_first()) == Ok::<ScanPoint, ScanFault>(p2));
        assert(scan_from(delim, encl, p1, sep) == Ok::<ScanPoint, ScanFault>(p2));
        lemma_scan_concat(delim, encl, scan_start(), head, sep);
        lemma_scan_written(delim, encl, p2, last, quote);
        lemma_scan_concat(delim, encl, scan_start(), head + sep, tail);
        assert(before.push(last) =~= fields);
    }
}

/// A line that is written from its fields gives the fields back: where
/// each field that holds the delimiter or the enclosure character is
/// enclosed and has its enclosure characters doubled, and the fields are
/// joined by the delimiter, the line's tokens are the fields, in order.
/// One line is left out: that of a single, empty, bare field, which is the
/// empty line and has no token.
pub proof fn lemma_round_trip(
    fields: Seq<Seq<char>>,
    quotes: Seq<bool>,
    delim: char,
    encl: Option<char>,
)
    requires
        can_be_written(fields, quotes, delim, encl),
        !(fields.len() == 1 && fields[0].len() == 0 && !quotes[0]),
    ensures
        line_tokens(delim, encl, joined(fields, quotes, delim, encl)) == Ok::<
            Seq<Seq<char>>,
            ScanFault,
        >(fields),
{
    if fields.len() == 0 {
        assert(fields =~= Seq::<Seq<char>>::empty());
    } else {
        lemma_scan_joined(fields, quotes, delim, encl);
        let p = behind(fields, quotes);
        if p.state == State::Scan {
            assert(fields.last() =~= Seq::<char>::empty());
            assert(fields.drop_last().push(Seq::empty()) =~= fields);
        }
    }
}

/// The empty line has no token: a single, empty, bare field does not come
/// back.
pub proof fn lemma_empty_line_has_no_token(delim: char, encl: Option<char>)
    ensures
        line_tokens(delim, encl, Seq::empty()) == Ok::<Seq<Seq<char>>, ScanFault>(Seq::empty()),
{
}

} // verus!
