//! The scrub filter: removes ANSI escape sequences from rendered text before
//! it is embedded in a trace line.
//!
//! The scan keeps a single boolean state. An escape introducer (`0x1B`) turns
//! output off; the next `m` (the SGR final byte) turns it back on; both, and
//! everything between them, are dropped. Text scanned while output is on is
//! kept verbatim. An escape with no terminating `m` silences the rest of the
//! input.

use vstd::prelude::*;

verus! {

/// Relies on `String::push`: appends the given character to the end of the
/// string, as its documentation states.
pub assume_specification[ String::push ](s: &mut String, c: char)
    ensures
        final(s)@ == old(s)@.push(c),
;

/// The scrub scan applied to `s` with the output state `keep`.
pub open spec fn scrub_from(s: Seq<char>, keep: bool) -> Seq<char>
    decreases s.len(),
{
    if s.len() == 0 {
        Seq::<char>::empty()
    } else {
        let c = s[0];
        let rest = s.drop_first();
        if c == '\x1b' {
            scrub_from(rest, false)
        } else if !keep {
            if c == 'm' {
                scrub_from(rest, true)
            } else {
                scrub_from(rest, false)
            }
        } else {
            seq![c] + scrub_from(rest, true)
        }
    }
}

/// What scrubbing whole text means: the scan starts with output on.
pub open spec fn scrubbed(s: Seq<char>) -> Seq<char> {
    scrub_from(s, true)
}

/// Removes every ANSI escape sequence from `s`, keeping all other characters
/// in their order.
pub fn strip_ansi(s: String) -> (r: String)
    ensures
        r@ == scrubbed(s@),
{
    let n = s.as_str().unicode_len();
    let mut out = String::new();
    let mut keep = true;
    let mut i: usize = 0;
    proof {
        assert(s@.skip(0) =~= s@);
        assert(Seq::<char>::empty() + scrub_from(s@, true) =~= scrub_from(s@, true));
    }
    while i < n
        invariant
            n == s@.len(),
            i <= n,
            scrubbed(s@) == out@ + scrub_from(s@.skip(i as int), keep),
        decreases n - i,
    {
        let c = s.as_str().get_char(i);
        proof {
            assert(s@.skip(i as int)[0] == s@[i as int]);
            assert(s@.skip(i as int).drop_first() =~= s@.skip(i as int + 1));
        }
        if c == '\x1b' {
            keep = false;
        } else if !keep {
            if c == 'm' {
                keep = true;
            }
        } else {
            let ghost out0 = out@;
            let ghost tail1 = scrub_from(s@.skip(i as int + 1), true);
            out.push(c);
            proof {
                assert(out0 + (seq![c] + tail1) =~= out0.push(c) + tail1);
            }
        }
        i = i + 1;
    }
    proof {
        assert(s@.skip(n as int) =~= Seq::<char>::empty());
        assert(out@ + scrub_from(s@.skip(n as int), keep) =~= out@);
    }
    out
}

/// No escape introducer survives a scrub, whatever state the scan is in.
pub proof fn lemma_scrub_no_escape(s: Seq<char>, keep: bool)
    ensures
        forall|j: int| 0 <= j < scrub_from(s, keep).len() ==> scrub_from(s, keep)[j] != '\x1b',
    decreases s.len(),
{
    if s.len() == 0 {
    } else {
        let c = s[0];
        let rest = s.drop_first();
        if c == '\x1b' {
            lemma_scrub_no_escape(rest, false);
            assert(scrub_from(s, keep) == scrub_from(rest, false));
        } else if !keep {
            if c == 'm' {
                lemma_scrub_no_escape(rest, true);
                assert(scrub_from(s, keep) == scrub_from(rest, true));
            } else {
                lemma_scrub_no_escape(rest, false);
                assert(scrub_from(s, keep) == scrub_from(rest, false));
            }
        } else {
            lemma_scrub_no_escape(rest, true);
            assert forall|j: int|
                0 <= j < scrub_from(s, keep).len() implies scrub_from(s, keep)[j] != '\x1b' by {
                assert(scrub_from(s, keep) == seq![c] + scrub_from(rest, true));
                if j > 0 {
                    assert(scrub_from(s, keep)[j] == scrub_from(rest, true)[j - 1]);
                }
            }
        }
    }
}

/// Text free of escape introducers passes through the scrub unchanged.
pub proof fn lemma_scrub_plain(s: Seq<char>)
    requires
        forall|j: int| 0 <= j < s.len() ==> s[j] != '\x1b',
    ensures
        scrubbed(s) == s,
    decreases s.len(),
{
    if s.len() == 0 {
        assert(scrubbed(s) =~= s);
    } else {
        let c = s[0];
        let rest = s.drop_first();
        lemma_scrub_plain(rest);
        assert(seq![c] + rest =~= s);
    }
}

/// The scrub filter is idempotent: scrubbing already-scrubbed text returns it
/// unchanged.
pub proof fn lemma_scrub_idempotent(s: Seq<char>)
    ensures
        scrubbed(scrubbed(s)) == scrubbed(s),
{
    lemma_scrub_no_escape(s, true);
    lemma_scrub_plain(scrubbed(s));
}

/// While output is off, everything up to and including the next `m` is
/// dropped, and the scan resumes after it with output on.
proof fn lemma_scrub_dropping(body: Seq<char>, rest: Seq<char>)
    requires
        forall|j: int| 0 <= j < body.len() ==> body[j] != 'm',
    ensures
        scrub_from(body + seq!['m'] + rest, false) == scrub_from(rest, true),
    decreases body.len(),
{
    if body.len() == 0 {
        assert(body + seq!['m'] + rest =~= seq!['m'] + rest);
        assert((seq!['m'] + rest).drop_first() =~= rest);
    } else {
        lemma_scrub_dropping(body.drop_first(), rest);
        assert((body + seq!['m'] + rest).drop_first() =~= body.drop_first() + seq!['m'] + rest);
        assert((body + seq!['m'] + rest)[0] == body[0]);
    }
}

/// A plain prefix is kept as it stands, and the scrub goes on with the rest.
pub proof fn lemma_scrub_prefix_plain(p: Seq<char>, rest: Seq<char>)
    requires
        forall|j: int| 0 <= j < p.len() ==> p[j] != '\x1b',
    ensures
        scrub_from(p + rest, true) == p + scrub_from(rest, true),
    decreases p.len(),
{
    if p.len() == 0 {
        assert(p + rest =~= rest);
        assert(p + scrub_from(rest, true) =~= scrub_from(rest, true));
    } else {
        let c = p[0];
        lemma_scrub_prefix_plain(p.drop_first(), rest);
        assert((p + rest).drop_first() =~= p.drop_first() + rest);
        assert((p + rest)[0] == c);
        assert(seq![c] + (p.drop_first() + scrub_from(rest, true)) =~= p + scrub_from(rest, true));
    }
}

/// Scrubbing removes a balanced escape sequence exactly: a plain prefix, then
/// an escape whose body holds no `m`, its closing `m`, and whatever follows,
/// scrub to the prefix followed by the scrub of what follows. Applied
/// repeatedly this covers every text made of plain runs and balanced
/// sequences.
pub proof fn lemma_scrub_balanced(p: Seq<char>, body: Seq<char>, rest: Seq<char>)
    requires
        forall|j: int| 0 <= j < p.len() ==> p[j] != '\x1b',
        forall|j: int| 0 <= j < body.len() ==> body[j] != 'm',
    ensures
        scrubbed(p + seq!['\x1b'] + body + seq!['m'] + rest) == p + scrubbed(rest),
{
    let esc = seq!['\x1b'] + body + seq!['m'] + rest;
    assert(p + seq!['\x1b'] + body + seq!['m'] + rest =~= p + esc);
    lemma_scrub_prefix_plain(p, esc);
    assert(esc.drop_first() =~= body + seq!['m'] + rest);
    assert(esc[0] == '\x1b');
    lemma_scrub_dropping(body, rest);
}

/// One segment of balanced text: either a run of plain characters or one
/// escape sequence, written with its introducer and closing `m`.
pub enum Chunk {
    /// A run that holds no escape introducer.
    Plain { text: Seq<char> },
    /// The inside of one escape sequence, between the introducer and the
    /// closing `m`; it holds no `m` of its own.
    Escape { body: Seq<char> },
}

/// Whether a segment is what it claims: a plain run free of introducers, or
/// an escape body free of `m`.
pub open spec fn chunk_ok(c: Chunk) -> bool {
    match c {
        Chunk::Plain { text } => forall|j: int| 0 <= j < text.len() ==> text[j] != '\x1b',
        Chunk::Escape { body } => forall|j: int| 0 <= j < body.len() ==> body[j] != 'm',
    }
}

/// The characters a segment stands for in the input.
pub open spec fn chunk_text(c: Chunk) -> Seq<char> {
    match c {
        Chunk::Plain { text } => text,
        Chunk::Escape { body } => seq!['\x1b'] + body + seq!['m'],
    }
}

/// The whole input the segments stand for, in order.
pub open spec fn chunks_text(cs: Seq<Chunk>) -> Seq<char>
    decreases cs.len(),
{
    if cs.len() == 0 {
        Seq::<char>::empty()
    } else {
        chunk_text(cs[0]) + chunks_text(cs.drop_first())
    }
}

/// What survives of the segments: the plain runs, in order; the escape
/// sequences, nothing.
pub open spec fn chunks_kept(cs: Seq<Chunk>) -> Seq<char>
    decreases cs.len(),
{
    if cs.len() == 0 {
        Seq::<char>::empty()
    } else {
        let head = match cs[0] {
            Chunk::Plain { text } => text,
            Chunk::Escape { body: _ } => Seq::<char>::empty(),
        };
        head + chunks_kept(cs.drop_first())
    }
}

/// For every text made of plain runs and balanced escape sequences, scrubbing
/// removes exactly the escape sequences and keeps every other character in
/// its original order.
pub proof fn lemma_scrub_removes_balanced(cs: Seq<Chunk>)
    requires
        forall|k: int| 0 <= k < cs.len() ==> chunk_ok(#[trigger] cs[k]),
    ensures
        scrubbed(chunks_text(cs)) == chunks_kept(cs),
    decreases cs.len(),
{
    if cs.len() == 0 {
        assert(chunks_text(cs) =~= Seq::<char>::empty());
    } else {
        let rest = cs.drop_first();
        assert(forall|k: int| 0 <= k < rest.len() ==> chunk_ok(#[trigger] rest[k])) by {
            assert(forall|k: int| 0 <= k < rest.len() ==> rest[k] == cs[k + 1]);
        }
        lemma_scrub_removes_balanced(rest);
        assert(chunk_ok(cs[0]));
        let inp = chunk_text(cs[0]) + chunks_text(rest);
        assert(chunks_text(cs) == inp);
        match cs[0] {
            Chunk::Plain { text } => {
                lemma_scrub_prefix_plain(text, chunks_text(rest));
                assert(inp =~= text + chunks_text(rest));
                assert(chunks_kept(cs) == text + chunks_kept(rest));
            },
            Chunk::Escape { body } => {
                assert(inp =~= seq!['\x1b'] + (body + seq!['m'] + chunks_text(rest)));
                assert(inp[0] == '\x1b');
                assert(inp.drop_first() =~= body + seq!['m'] + chunks_text(rest));
                assert(scrub_from(inp, true) == scrub_from(inp.drop_first(), false));
                lemma_scrub_dropping(body, chunks_text(rest));
                assert(chunks_kept(cs) =~= chunks_kept(rest));
            },
        }
    }
}

/// An escape with no terminating `m` silences everything from the escape
/// onward: only the plain prefix survives.
pub proof fn lemma_scrub_unterminated(p: Seq<char>, tail: Seq<char>)
    requires
        forall|j: int| 0 <= j < p.len() ==> p[j] != '\x1b',
        forall|j: int| 0 <= j < tail.len() ==> tail[j] != 'm',
    ensures
        scrubbed(p + seq!['\x1b'] + tail) == p,
{
    let esc = seq!['\x1b'] + tail;
    assert(p + seq!['\x1b'] + tail =~= p + esc);
    lemma_scrub_prefix_plain(p, esc);
    assert(esc.drop_first() =~= tail);
    assert(esc[0] == '\x1b');
    lemma_scrub_silenced(tail);
    assert(p + scrub_from(esc, true) =~= p);
}

/// With output off and no `m` ahead, nothing is ever kept.
proof fn lemma_scrub_silenced(tail: Seq<char>)
    requires
        forall|j: int| 0 <= j < tail.len() ==> tail[j] != 'm',
    ensures
        scrub_from(tail, false) == Seq::<char>::empty(),
    decreases tail.len(),
{
    if tail.len() == 0 {
    } else {
        lemma_scrub_silenced(tail.drop_first());
    }
}

} // verus!
