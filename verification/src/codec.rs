//! The codec between the byte-stream transport and the relay's model.
//!
//! Inbound: one read's bytes become one message, decoded as permissive UTF-8
//! (invalid sequences are replaced, never rejected) and trimmed of surrounding
//! whitespace. There is no framing: a fragment of a longer send is still one
//! message, and an empty trim result is still appended.
//!
//! Outbound: a snapshot of the history is rendered as the messages joined with
//! a newline between entries, followed by one trailing newline; an empty
//! history renders as a single newline.

use vstd::prelude::*;

verus! {

/// The characters that permissive UTF-8 decoding yields for `bytes`; invalid
/// sequences are replaced, so decoding never fails. The result depends on the
/// bytes alone.
pub uninterp spec fn lossy_decoded(bytes: Seq<u8>) -> Seq<char>;

/// The characters of `s` with leading and trailing whitespace removed. The
/// result depends on the characters alone.
pub uninterp spec fn trimmed(s: Seq<char>) -> Seq<char>;

/// The one message that a single read of `bytes` carries: the bytes decoded
/// permissively, then trimmed of surrounding whitespace.
pub open spec fn message_of(bytes: Seq<u8>) -> Seq<char> {
    trimmed(lossy_decoded(bytes))
}

/// Relies on `String::from_utf8_lossy`: the decoding is a function of the
/// bytes alone, and an empty input decodes to an empty string.
#[verifier::external_body]
fn decode_lossy(bytes: &Vec<u8>) -> (r: String)
    ensures
        r@ == lossy_decoded(bytes@),
        bytes@.len() == 0 ==> r@.len() == 0,
{
    String::from_utf8_lossy(bytes.as_slice()).into_owned()
}

/// Relies on `str::trim`: the result is a function of the characters alone,
/// is a subslice of the input (so never longer), and trimming an empty string
/// yields an empty string.
#[verifier::external_body]
fn trim_copy(s: &String) -> (r: String)
    ensures
        r@ == trimmed(s@),
        r@.len() <= s@.len(),
        s@.len() == 0 ==> r@.len() == 0,
{
    s.trim().to_owned()
}

/// Relies on `String::push`: appends exactly the one character at the end.
pub assume_specification[ String::push ](s: &mut String, c: char)
    ensures
        final(s)@ == old(s)@.push(c),
;

/// Relies on `String::push_str`: appends exactly the given characters at the
/// end.
pub assume_specification[ String::push_str ](s: &mut String, other: &str)
    ensures
        final(s)@ == old(s)@ + other@,
;

/// Turns the bytes of one read into the one message they carry.
pub fn decode_message(bytes: &Vec<u8>) -> (m: String)
    ensures
        m@ == message_of(bytes@),
{
    let decoded = decode_lossy(bytes);
    trim_copy(&decoded)
}

/// Every message of `h` in order, each followed by one newline.
pub open spec fn joined_lines(h: Seq<Seq<char>>) -> Seq<char>
    decreases h.len(),
{
    if h.len() == 0 {
        Seq::empty()
    } else {
        h.first() + seq!['\n'] + joined_lines(h.drop_first())
    }
}

/// The wire form of a snapshot: the messages joined with a newline between
/// entries plus one trailing newline, which for a non-empty history is each
/// message followed by one newline; an empty history renders as one newline.
pub open spec fn rendered(h: Seq<Seq<char>>) -> Seq<char> {
    if h.len() == 0 {
        seq!['\n']
    } else {
        joined_lines(h)
    }
}

/// Joining grows at the back: rendering one more message appends that message
/// and a newline after everything already rendered.
pub proof fn lemma_joined_lines_push(h: Seq<Seq<char>>, m: Seq<char>)
    ensures
        joined_lines(h.push(m)) == joined_lines(h) + m + seq!['\n'],
    decreases h.len(),
{
    if h.len() == 0 {
        assert(h.push(m).drop_first() =~= Seq::<Seq<char>>::empty());
        assert(joined_lines(Seq::<Seq<char>>::empty()) == Seq::<char>::empty());
        assert(joined_lines(h.push(m)) == m + seq!['\n'] + joined_lines(
            h.push(m).drop_first(),
        ));
        assert(joined_lines(h.push(m)) =~= joined_lines(h) + m + seq!['\n']);
    } else {
        assert(h.push(m).drop_first() =~= h.drop_first().push(m));
        lemma_joined_lines_push(h.drop_first(), m);
        assert(joined_lines(h.push(m)) =~= joined_lines(h) + m + seq!['\n']);
    }
}

/// A session's response always shows its own just-sent message: rendering the
/// history right after an append yields everything rendered before the append,
/// then the appended message itself, then one newline — so the message stands
/// literally at the end of the wire text.
pub proof fn lemma_response_ends_with_own_message(h: Seq<Seq<char>>, m: Seq<char>)
    ensures
        rendered(h.push(m)) == joined_lines(h) + m + seq!['\n'],
{
    lemma_joined_lines_push(h, m);
}

/// The position of the first newline in `s`, or `s.len()` when there is none.
pub open spec fn first_newline(s: Seq<char>) -> nat
    decreases s.len(),
{
    if s.len() == 0 {
        0
    } else if s.first() == '\n' {
        0
    } else {
        1 + first_newline(s.drop_first())
    }
}

/// The entries a receiver recovers from rendered text: the text is cut at
/// each newline, and any text after the last newline forms one final entry.
pub open spec fn split_lines(s: Seq<char>) -> Seq<Seq<char>>
    decreases s.len(),
{
    if s.len() == 0 {
        Seq::empty()
    } else {
        let k = first_newline(s);
        if k >= s.len() {
            seq![s]
        } else {
            seq![s.take(k as int)] + split_lines(s.skip(k + 1 as int))
        }
    }
}

/// The first newline of a text that starts with a newline-free prefix `a`
/// followed by a newline is exactly at the end of `a`.
proof fn lemma_first_newline_after_clean_prefix(a: Seq<char>, b: Seq<char>)
    requires
        !a.contains('\n'),
    ensures
        first_newline(a + seq!['\n'] + b) == a.len(),
    decreases a.len(),
{
    let s = a + seq!['\n'] + b;
    if a.len() == 0 {
        assert(s.first() == '\n');
    } else {
        assert(s.first() == a[0]);
        assert(a[0] != '\n');
        assert(s.drop_first() =~= a.drop_first() + seq!['\n'] + b);
        assert forall|j: int| 0 <= j < a.drop_first().len() implies a.drop_first()[j]
            != '\n' by {
            assert(a.drop_first()[j] == a[j + 1]);
        }
        lemma_first_newline_after_clean_prefix(a.drop_first(), b);
    }
}

/// Snapshot consistency: rendering never truncates or mangles an entry.
/// Cutting the rendered snapshot at each newline recovers exactly the
/// messages that were appended, one for one and in order, provided no message
/// itself contains a newline.
pub proof fn lemma_rendered_recovers_messages(h: Seq<Seq<char>>)
    requires
        h.len() >= 1,
        forall|i: int| 0 <= i < h.len() ==> !(#[trigger] h[i]).contains('\n'),
    ensures
        split_lines(rendered(h)) == h,
{
    lemma_split_joined_lines(h);
}

/// The round trip behind `lemma_rendered_recovers_messages`, stated over
/// `joined_lines` so that it also covers the empty history.
pub proof fn lemma_split_joined_lines(h: Seq<Seq<char>>)
    requires
        forall|i: int| 0 <= i < h.len() ==> !(#[trigger] h[i]).contains('\n'),
    ensures
        split_lines(joined_lines(h)) == h,
    decreases h.len(),
{
    if h.len() == 0 {
        assert(split_lines(joined_lines(h)) =~= h);
    } else {
        let head = h.first();
        let rest = joined_lines(h.drop_first());
        let s = head + seq!['\n'] + rest;
        assert(joined_lines(h) == s);
        lemma_first_newline_after_clean_prefix(head, rest);
        let k = first_newline(s);
        assert(k == head.len());
        assert(k < s.len());
        assert(s.take(k as int) =~= head);
        assert(s.skip(k + 1 as int) =~= rest);
        assert forall|j: int| 0 <= j < h.drop_first().len() implies !(#[trigger] h.drop_first()[
            j
        ]).contains('\n') by {
            assert(h.drop_first()[j] == h[j + 1]);
        }
        lemma_split_joined_lines(h.drop_first());
        assert(split_lines(s) == seq![head] + h.drop_first());
        assert(seq![head] + h.drop_first() =~= h);
    }
}

/// Renders a snapshot for transmission.
pub fn render_snapshot(messages: &Vec<String>) -> (r: String)
    ensures
        r@ == rendered(messages.deep_view()),
{
    let mut out = String::new();
    let n = messages.len();
    if n == 0 {
        out.push('\n');
        return out;
    }
    for i in 0..n
        invariant
            n == messages.len(),
            out@ == joined_lines(messages.deep_view().take(i as int)),
    {
        proof {
            assert(messages.deep_view().take(i as int).push(messages@[i as int]@) =~= messages
                .deep_view()
                .take(i + 1 as int));
        }
        let ghost prefix = out@;
        out.push_str(messages[i].as_str());
        out.push('\n');
        proof {
            lemma_joined_lines_push(
                messages.deep_view().take(i as int),
                messages@[i as int]@,
            );
            assert(out@ =~= prefix + messages@[i as int]@ + seq!['\n']);
        }
    }
    proof {
        assert(messages.deep_view().take(n as int) =~= messages.deep_view());
    }
    out
}

} // verus!
