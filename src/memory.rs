//! Folding earlier exchanges into a prompt, each clamped to a bounded size.

use vstd::prelude::*;
use crate::text::{chars_of, extend_chars, split_chars, split_pieces, string_from_chars};

verus! {

/// One earlier exchange.
#[derive(Debug, Clone, Default)]
pub struct MemoryEntry {
    pub prompt: String,
    pub response: String,
}

/// What is remembered of earlier requests.
#[derive(Debug, Default)]
pub struct MemoryState {
    pub last_prompt: Option<String>,
    pub last_response: Option<String>,
    pub conversation_history: Vec<MemoryEntry>,
}

pub const MAX_MEMORY_BYTES: usize = 2000;
pub const MAX_MEMORY_LINES: usize = 20;
pub const MAX_HISTORY: usize = 3;

/// Line breaks made uniform: each `\r\n`, then each remaining `\r`, becomes `\n`.
pub open spec fn normalized(s: Seq<char>) -> Seq<char>
    decreases s.len(),
{
    if s.len() == 0 {
        s
    } else if s[0] == '\r' && s.len() > 1 && s[1] == '\n' {
        seq!['\n'] + normalized(s.skip(2))
    } else if s[0] == '\r' {
        seq!['\n'] + normalized(s.skip(1))
    } else {
        seq![s[0]] + normalized(s.skip(1))
    }
}

/// The lines of a text without `\r`: the pieces between `\n`, without a last empty one.
pub open spec fn lines_of(s: Seq<char>) -> Seq<Seq<char>> {
    let p = split_pieces(s, '\n');
    if p.last().len() == 0 { p.drop_last() } else { p }
}

/// Lines joined with `\n` between them.
pub open spec fn joined(ls: Seq<Seq<char>>) -> Seq<char>
    decreases ls.len(),
{
    if ls.len() == 0 {
        Seq::<char>::empty()
    } else if ls.len() == 1 {
        ls[0]
    } else {
        joined(ls.drop_last()) + seq!['\n'] + ls.last()
    }
}

/// At most the first `MAX_MEMORY_LINES` lines, with a `[...]` line when some were cut.
pub open spec fn kept_lines(ls: Seq<Seq<char>>) -> Seq<Seq<char>> {
    if ls.len() > MAX_MEMORY_LINES {
        ls.take(MAX_MEMORY_LINES as int).push("[...]"@)
    } else {
        ls
    }
}

/// The bytes `char::len_utf8` gives a character.
pub open spec fn utf8_width(c: char) -> nat {
    if (c as u32) < 0x80 {
        1
    } else if (c as u32) < 0x800 {
        2
    } else if (c as u32) < 0x10000 {
        3
    } else {
        4
    }
}

/// The UTF-8 length of a text.
pub open spec fn utf8_len(s: Seq<char>) -> nat
    decreases s.len(),
{
    if s.len() == 0 {
        0
    } else {
        utf8_len(s.drop_last()) + utf8_width(s.last())
    }
}

/// The line-clamped form of `text`, before its byte length is bounded.
pub open spec fn line_clamped(text: Seq<char>) -> Seq<char> {
    joined(kept_lines(lines_of(normalized(text))))
}

/// Cutting `s` at `MAX_MEMORY_BYTES` bytes falls between characters (or needs no cut).
pub open spec fn cuts_cleanly(s: Seq<char>) -> bool {
    utf8_len(s) <= MAX_MEMORY_BYTES || exists|k: int| 0 <= k <= s.len() && utf8_len(#[trigger] s.take(k)) == MAX_MEMORY_BYTES
}

/// The clamped form of `text`: at most `MAX_MEMORY_LINES` lines, then at most
/// `MAX_MEMORY_BYTES` bytes, each cut marked with `[...]`.
pub open spec fn clamped(text: Seq<char>) -> Seq<char> {
    let s = line_clamped(text);
    if utf8_len(s) > MAX_MEMORY_BYTES {
        let k = choose|k: int| 0 <= k <= s.len() && utf8_len(#[trigger] s.take(k)) == MAX_MEMORY_BYTES;
        s.take(k) + "\n[...]"@
    } else {
        s
    }
}

proof fn lemma_utf8_prefix_grows(s: Seq<char>, a: int, b: int)
    requires
        0 <= a <= b <= s.len(),
    ensures
        utf8_len(s.take(a)) + (b - a) <= utf8_len(s.take(b)),
    decreases b - a,
{
    if a < b {
        lemma_utf8_prefix_grows(s, a, b - 1);
        assert(s.take(b).drop_last() =~= s.take(b - 1));
    }
}

fn width_of(c: char) -> (r: usize)
    ensures
        r == utf8_width(c),
{
    let v = c as u32;
    if v < 0x80 {
        1
    } else if v < 0x800 {
        2
    } else if v < 0x10000 {
        3
    } else {
        4
    }
}

fn normalize_breaks(s: &Vec<char>) -> (r: Vec<char>)
    ensures
        r@ == normalized(s@),
{
    let mut out: Vec<char> = Vec::new();
    let mut i: usize = 0;
    let n = s.len();
    assert(s@.skip(0) =~= s@);
    assert(out@ + normalized(s@) =~= normalized(s@));
    while i < n
        invariant
            n == s@.len(),
            i <= n,
            normalized(s@) == out@ + normalized(s@.skip(i as int)),
        decreases n - i,
    {
        let ghost rest = s@.skip(i as int);
        if s[i] == '\r' && i + 1 < n && s[i + 1] == '\n' {
            assert(rest.skip(2) =~= s@.skip(i + 2));
            out.push('\n');
            assert(out@ + normalized(s@.skip(i + 2)) =~= out@.drop_last() + (seq!['\n'] + normalized(rest.skip(2))));
            i = i + 2;
        } else {
            let c = if s[i] == '\r' { '\n' } else { s[i] };
            assert(rest.skip(1) =~= s@.skip(i + 1));
            out.push(c);
            assert(out@ + normalized(s@.skip(i + 1)) =~= out@.drop_last() + (seq![c] + normalized(rest.skip(1))));
            i = i + 1;
        }
    }
    assert(s@.skip(n as int) =~= Seq::<char>::empty());
    assert(out@ + Seq::<char>::empty() =~= out@);
    out
}

fn join_lines(ls: &Vec<Vec<char>>) -> (r: Vec<char>)
    ensures
        r@ == joined(ls@.map_values(|l: Vec<char>| l@)),
{
    let ghost view = ls@.map_values(|l: Vec<char>| l@);
    let mut out: Vec<char> = Vec::new();
    let mut i: usize = 0;
    while i < ls.len()
        invariant
            i <= ls@.len(),
            view == ls@.map_values(|l: Vec<char>| l@),
            out@ == joined(view.take(i as int)),
        decreases ls@.len() - i,
    {
        assert(view.take(i + 1).drop_last() =~= view.take(i as int));
        if i > 0 {
            out.push('\n');
        } else {
            assert(out@ + ls@[0]@ =~= ls@[0]@);
        }
        extend_chars(&mut out, &ls[i]);
        i = i + 1;
    }
    assert(view.take(ls@.len() as int) =~= view);
    out
}

/// The line-clamped form of `text`; see `line_clamped`.
pub fn line_clamp(text: &str) -> (r: Vec<char>)
    ensures
        r@ == line_clamped(text@),
{
    let chars = chars_of(text);
    let norm = normalize_breaks(&chars);
    let pieces = split_chars(&norm, '\n');
    let ghost pv = split_pieces(norm@, '\n');
    proof { crate::text::lemma_split_pieces_nonempty(norm@, '\n'); }
    let np = pieces.len();
    let count: usize = if pieces[np - 1].len() == 0 { np - 1 } else { np };
    let limit: usize = if count > MAX_MEMORY_LINES { MAX_MEMORY_LINES } else { count };
    let mut lines: Vec<Vec<char>> = Vec::new();
    let mut i: usize = 0;
    while i < limit
        invariant
            limit <= count <= np,
            np == pieces@.len(),
            pieces@.len() == pv.len(),
            forall|k: int| 0 <= k < np ==> (#[trigger] pieces@[k])@ == pv[k],
            i <= limit,
            lines@.len() == i,
            forall|k: int| 0 <= k < i ==> (#[trigger] lines@[k])@ == pv[k],
        decreases limit - i,
    {
        lines.push(slice_all(&pieces[i]));
        i = i + 1;
    }
    if count > MAX_MEMORY_LINES {
        lines.push(chars_of("[...]"));
    }
    assert(lines@.map_values(|l: Vec<char>| l@) =~= kept_lines(lines_of(norm@)));
    join_lines(&lines)
}

/// `s` cut to `MAX_MEMORY_BYTES` bytes and marked, when longer; `None` when that cut
/// would fall inside a character.
pub fn bound_bytes(s: Vec<char>) -> (r: Option<Vec<char>>)
    ensures
        r is None <==> !cuts_cleanly(s@),
        r matches Some(v) ==> v@ == (if utf8_len(s@) > MAX_MEMORY_BYTES {
            s@.take(choose|k: int| 0 <= k <= s@.len() && utf8_len(#[trigger] s@.take(k)) == MAX_MEMORY_BYTES) + "\n[...]"@
        } else {
            s@
        }),
{
    let ghost sv = s@;
    let n = s.len();
    let mut acc: usize = 0;
    let mut k: usize = 0;
    while k < n && acc < MAX_MEMORY_BYTES
        invariant
            n == sv.len(),
            s@ == sv,
            k <= n,
            acc == utf8_len(sv.take(k as int)),
            acc <= MAX_MEMORY_BYTES + 4,
            k > 0 ==> utf8_len(sv.take(k - 1)) < MAX_MEMORY_BYTES,
        decreases n - k,
    {
        assert(sv.take(k + 1).drop_last() =~= sv.take(k as int));
        assert(sv.take(k + 1).last() == sv[k as int]);
        acc = acc + width_of(s[k]);
        k = k + 1;
    }
    proof {
        lemma_utf8_prefix_grows(sv, k as int, n as int);
        assert(sv.take(n as int) =~= sv);
    }
    if acc == MAX_MEMORY_BYTES && k < n {
        let mut out = slice_prefix(&s, k);
        proof {
            let c = choose|c: int| 0 <= c <= sv.len() && utf8_len(#[trigger] sv.take(c)) == MAX_MEMORY_BYTES;
            if c < k {
                lemma_utf8_prefix_grows(sv, c, k as int);
            } else if c > k {
                lemma_utf8_prefix_grows(sv, k as int, c);
            }
        }
        let tail = chars_of("\n[...]");
        extend_chars(&mut out, &tail);
        Some(out)
    } else if acc > MAX_MEMORY_BYTES {
        proof {
            assert(k > 0);
            assert(sv.take(k as int).drop_last() =~= sv.take(k - 1));
            assert forall|c: int| 0 <= c <= sv.len() implies utf8_len(#[trigger] sv.take(c)) != MAX_MEMORY_BYTES by {
                if c < k {
                    lemma_utf8_prefix_grows(sv, c, k - 1);
                } else {
                    lemma_utf8_prefix_grows(sv, k as int, c);
                }
            }
        }
        None
    } else {
        Some(s)
    }
}

/// Clamps one remembered text; see `clamped`.
pub fn clamp_text(text: &str) -> (r: Vec<char>)
    requires
        cuts_cleanly(line_clamped(text@)),
    ensures
        r@ == clamped(text@),
{
    let lines = line_clamp(text);
    match bound_bytes(lines) {
        Some(v) => v,
        None => {
            assert(false);
            Vec::new()
        },
    }
}

/// One remembered exchange as it enters the prompt.
pub open spec fn exchange_text(e: MemoryEntry) -> Seq<char> {
    "User:\n"@ + clamped(e.prompt@) + "\n\nAssistant:\n"@ + clamped(e.response@) + "\n\n"@
}

/// Remembered exchanges, in order, as they enter the prompt.
pub open spec fn history_text(es: Seq<MemoryEntry>) -> Seq<char>
    decreases es.len(),
{
    if es.len() == 0 {
        Seq::<char>::empty()
    } else {
        history_text(es.drop_last()) + exchange_text(es.last())
    }
}

/// The last `MAX_HISTORY` exchanges.
pub open spec fn recent(es: Seq<MemoryEntry>) -> Seq<MemoryEntry> {
    if es.len() > MAX_HISTORY {
        es.skip(es.len() - MAX_HISTORY)
    } else {
        es
    }
}

pub open spec fn has_memory(m: MemoryState) -> bool {
    m.conversation_history@.len() > 0 || m.last_prompt is Some || m.last_response is Some
}

/// What is remembered, as it enters the prompt.
pub open spec fn remembered_text(m: MemoryState) -> Seq<char> {
    if has_memory(m) {
        "### Previous\n"@ + history_text(recent(m.conversation_history@)) + match m.last_prompt {
            Some(p) => "User:\n"@ + clamped(p@) + "\n\n"@,
            None => Seq::<char>::empty(),
        } + match m.last_response {
            Some(r) => "Assistant:\n"@ + clamped(r@) + "\n\n"@,
            None => Seq::<char>::empty(),
        }
    } else {
        Seq::<char>::empty()
    }
}

/// The prompt with what is remembered before it.
pub open spec fn memory_prompt(prompt: Seq<char>, m: MemoryState) -> Seq<char> {
    remembered_text(m) + "### Current\nUser:\n"@ + prompt + "\n\nAssistant:"@
}

pub open spec fn text_fits(t: Seq<char>) -> bool {
    cuts_cleanly(line_clamped(t))
}

/// Every text that enters the prompt can be clamped without cutting a character.
pub open spec fn memory_clamps_cleanly(m: MemoryState) -> bool {
    &&& forall|i: int| 0 <= i < recent(m.conversation_history@).len() ==> {
        &&& text_fits((#[trigger] recent(m.conversation_history@)[i]).prompt@)
        &&& text_fits(recent(m.conversation_history@)[i].response@)
    }
    &&& m.last_prompt matches Some(p) ==> text_fits(p@)
    &&& m.last_response matches Some(r) ==> text_fits(r@)
}

fn text_fits_exec(t: &str) -> (r: bool)
    ensures
        r == text_fits(t@),
{
    let lines = line_clamp(t);
    bound_bytes(lines).is_some()
}

fn first_recent(n: usize) -> (r: usize)
    ensures
        r == (if n > MAX_HISTORY { n - MAX_HISTORY } else { 0 }),
{
    if n > MAX_HISTORY { n - MAX_HISTORY } else { 0 }
}

/// Whether `apply_memory` can clamp every remembered text without cutting a character.
pub fn memory_fits(memory: &MemoryState) -> (r: bool)
    ensures
        r == memory_clamps_cleanly(*memory),
{
    let hist = &memory.conversation_history;
    let start = first_recent(hist.len());
    let ghost rec = recent(hist@);
    let mut i: usize = start;
    while i < hist.len()
        invariant
            start <= i <= hist@.len(),
            rec == recent(hist@),
            start == hist@.len() - rec.len(),
            forall|j: int| 0 <= j < rec.len() ==> rec[j] == hist@[start + j],
            forall|j: int| 0 <= j < i - start ==> text_fits((#[trigger] rec[j]).prompt@) && text_fits(rec[j].response@),
            *hist == memory.conversation_history,
        decreases hist@.len() - i,
    {
        if !text_fits_exec(hist[i].prompt.as_str()) || !text_fits_exec(hist[i].response.as_str()) {
            let ghost j = i - start;
            assert(rec[j] == hist@[i as int]);
            assert(!(text_fits(rec[j].prompt@) && text_fits(rec[j].response@)));
            assert(!memory_clamps_cleanly(*memory));
            return false;
        }
        assert(rec[i - start] == hist@[i as int]);
        i = i + 1;
    }
    let p_ok = match &memory.last_prompt {
        Some(p) => text_fits_exec(p.as_str()),
        None => true,
    };
    let r_ok = match &memory.last_response {
        Some(r) => text_fits_exec(r.as_str()),
        None => true,
    };
    p_ok && r_ok
}

fn push_exchange(out: &mut Vec<char>, e: &MemoryEntry)
    requires
        text_fits(e.prompt@),
        text_fits(e.response@),
    ensures
        final(out)@ == old(out)@ + exchange_text(*e),
{
    extend_chars(out, &chars_of("User:\n"));
    extend_chars(out, &clamp_text(e.prompt.as_str()));
    extend_chars(out, &chars_of("\n\nAssistant:\n"));
    extend_chars(out, &clamp_text(e.response.as_str()));
    extend_chars(out, &chars_of("\n\n"));
    assert(final(out)@ =~= old(out)@ + exchange_text(*e));
}

fn push_turn(out: &mut Vec<char>, label: &str, text: &str)
    requires
        text_fits(text@),
    ensures
        final(out)@ == old(out)@ + (label@ + clamped(text@) + "\n\n"@),
{
    extend_chars(out, &chars_of(label));
    extend_chars(out, &clamp_text(text));
    extend_chars(out, &chars_of("\n\n"));
    assert(final(out)@ =~= old(out)@ + (label@ + clamped(text@) + "\n\n"@));
}

fn push_history(out: &mut Vec<char>, hist: &Vec<MemoryEntry>)
    requires
        forall|i: int| 0 <= i < recent(hist@).len() ==> {
            &&& text_fits((#[trigger] recent(hist@)[i]).prompt@)
            &&& text_fits(recent(hist@)[i].response@)
        },
    ensures
        final(out)@ == old(out)@ + history_text(recent(hist@)),
{
    let start = first_recent(hist.len());
    let ghost rec = recent(hist@);
    let mut i: usize = start;
    assert(rec.take(0) =~= Seq::<MemoryEntry>::empty());
    assert(old(out)@ + Seq::<char>::empty() =~= old(out)@);
    while i < hist.len()
        invariant
            start <= i <= hist@.len(),
            rec == recent(hist@),
            start == hist@.len() - rec.len(),
            forall|j: int| 0 <= j < rec.len() ==> rec[j] == hist@[start + j],
            forall|j: int| 0 <= j < rec.len() ==> {
                &&& text_fits((#[trigger] rec[j]).prompt@)
                &&& text_fits(rec[j].response@)
            },
            out@ == old(out)@ + history_text(rec.take(i - start)),
        decreases hist@.len() - i,
    {
        let ghost e = rec[i - start];
        assert(e == hist@[i as int]);
        assert(rec.take(i + 1 - start).drop_last() =~= rec.take(i - start));
        push_exchange(out, &hist[i]);
        assert(out@ =~= old(out)@ + history_text(rec.take(i + 1 - start)));
        i = i + 1;
    }
    assert(rec.take(hist@.len() - start) =~= rec);
}

/// Puts what is remembered before the prompt: under `### Previous`, the last
/// `MAX_HISTORY` exchanges, then the last prompt and response, each text clamped; then the
/// prompt under `### Current`, ending with an open `Assistant:` turn.
pub fn apply_memory(prompt: &str, memory: &MemoryState) -> (r: String)
    requires
        memory_clamps_cleanly(*memory),
    ensures
        r@ == memory_prompt(prompt@, *memory),
{
    let mut out: Vec<char> = Vec::new();
    let hist = &memory.conversation_history;
    if hist.len() > 0 || memory.last_prompt.is_some() || memory.last_response.is_some() {
        extend_chars(&mut out, &chars_of("### Previous\n"));
        push_history(&mut out, hist);
        let ghost before_prompt = out@;
        match &memory.last_prompt {
            Some(p) => push_turn(&mut out, "User:\n", p.as_str()),
            None => assert(out@ =~= before_prompt + Seq::<char>::empty()),
        }
        let ghost before_response = out@;
        match &memory.last_response {
            Some(r) => push_turn(&mut out, "Assistant:\n", r.as_str()),
            None => assert(out@ =~= before_response + Seq::<char>::empty()),
        }
        assert(out@ =~= remembered_text(*memory));
    } else {
        assert(out@ =~= remembered_text(*memory));
    }
    extend_chars(&mut out, &chars_of("### Current\nUser:\n"));
    extend_chars(&mut out, &chars_of(prompt));
    extend_chars(&mut out, &chars_of("\n\nAssistant:"));
    assert(out@ =~= memory_prompt(prompt@, *memory));
    string_from_chars(&out)
}

fn slice_all(v: &Vec<char>) -> (r: Vec<char>)
    ensures
        r@ == v@,
{
    let r = v.clone();
    assert(r@ =~= v@);
    r
}

fn slice_prefix(v: &Vec<char>, k: usize) -> (r: Vec<char>)
    requires
        k <= v@.len(),
    ensures
        r@ == v@.take(k as int),
{
    crate::text::slice_chars(v, 0, k)
}

} // verus!
