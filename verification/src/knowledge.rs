//! Knowledge-base document helpers: paragraph-aware chunking, content types
//! from file extensions, and the token estimate of a chunk.

use vstd::prelude::*;
use vstd::utf8::{decode_utf8, encode_utf8, encode_scalar, valid_utf8};
use crate::text::{chars_of, join_with, split_chars, split_on, str_eq, string_of};
use crate::prompt::{spec_estimate_tokens, utf8_len};

verus! {

/// `char::is_whitespace`: the characters with the Unicode `White_Space` property.
pub open spec fn is_ws(c: char) -> bool {
    let u = c as u32;
    ||| (0x09 <= u && u <= 0x0D)
    ||| u == 0x20
    ||| u == 0x85
    ||| u == 0xA0
    ||| u == 0x1680
    ||| (0x2000 <= u && u <= 0x200A)
    ||| u == 0x2028
    ||| u == 0x2029
    ||| u == 0x202F
    ||| u == 0x205F
    ||| u == 0x3000
}

/// `char::is_whitespace`.
pub fn is_whitespace(c: char) -> (r: bool)
    ensures
        r == is_ws(c),
{
    let u = c as u32;
    (0x09 <= u && u <= 0x0D) || u == 0x20 || u == 0x85 || u == 0xA0 || u == 0x1680
        || (0x2000 <= u && u <= 0x200A) || u == 0x2028 || u == 0x2029 || u == 0x202F
        || u == 0x205F || u == 0x3000
}

/// The index of the first non-whitespace character at or after `i`.
pub open spec fn trim_start_idx(s: Seq<char>, i: int) -> int
    decreases s.len() - i,
{
    if i >= s.len() || !is_ws(s[i]) { i } else { trim_start_idx(s, i + 1) }
}

/// One past the index of the last non-whitespace character before `j`, not below `lo`.
pub open spec fn trim_end_idx(s: Seq<char>, lo: int, j: int) -> int
    decreases j - lo,
{
    if j <= lo || !is_ws(s[j - 1]) { j } else { trim_end_idx(s, lo, j - 1) }
}

/// `str::trim`: `s` without leading and trailing whitespace.
pub open spec fn trim(s: Seq<char>) -> Seq<char> {
    let a = trim_start_idx(s, 0);
    s.subrange(a, trim_end_idx(s, a, s.len() as int))
}

proof fn lemma_trim_start_bounds(s: Seq<char>, i: int)
    requires
        0 <= i <= s.len(),
    ensures
        i <= trim_start_idx(s, i) <= s.len(),
        forall|k: int| i <= k < trim_start_idx(s, i) ==> is_ws(#[trigger] s[k]),
        trim_start_idx(s, i) < s.len() ==> !is_ws(s[trim_start_idx(s, i)]),
    decreases s.len() - i,
{
    if i < s.len() && is_ws(s[i]) {
        lemma_trim_start_bounds(s, i + 1);
    }
}

proof fn lemma_trim_end_bounds(s: Seq<char>, lo: int, j: int)
    requires
        0 <= lo <= j <= s.len(),
    ensures
        lo <= trim_end_idx(s, lo, j) <= j,
        forall|k: int| trim_end_idx(s, lo, j) <= k < j ==> is_ws(#[trigger] s[k]),
        trim_end_idx(s, lo, j) > lo ==> !is_ws(s[trim_end_idx(s, lo, j) - 1]),
    decreases j - lo,
{
    if j > lo && is_ws(s[j - 1]) {
        lemma_trim_end_bounds(s, lo, j - 1);
    }
}

/// `str::trim` on characters.
pub fn trim_chars(v: &Vec<char>) -> (r: Vec<char>)
    ensures
        r@ == trim(v@),
{
    let mut a: usize = 0;
    while a < v.len() && is_whitespace(v[a])
        invariant
            a <= v.len(),
            trim_start_idx(v@, 0) == trim_start_idx(v@, a as int),
        decreases v.len() - a,
    {
        a += 1;
    }
    let mut b: usize = v.len();
    while b > a && is_whitespace(v[b - 1])
        invariant
            a <= b <= v.len(),
            trim_start_idx(v@, 0) == a,
            trim_end_idx(v@, a as int, v.len() as int) == trim_end_idx(v@, a as int, b as int),
        decreases b - a,
    {
        b -= 1;
    }
    let mut out: Vec<char> = Vec::new();
    let mut i: usize = a;
    while i < b
        invariant
            a <= i <= b <= v.len(),
            out@ == v@.subrange(a as int, i as int),
        decreases b - i,
    {
        out.push(v[i]);
        i += 1;
        assert(out@ =~= v@.subrange(a as int, i as int));
    }
    out
}

/// The UTF-8 width of one character.
pub open spec fn char_width(c: char) -> nat {
    let u = c as u32;
    if u <= 0x7F { 1 } else if u <= 0x7FF { 2 } else if u <= 0xFFFF { 3 } else { 4 }
}

proof fn lemma_encode_scalar_len(c: char)
    ensures
        encode_scalar(c as u32).len() == char_width(c),
{
    vstd::utf8::char_is_scalar(c);
}

/// The UTF-8 length of a concatenation is the sum of the lengths.
pub proof fn lemma_utf8_len_concat(a: Seq<char>, b: Seq<char>)
    ensures
        utf8_len(a + b) == utf8_len(a) + utf8_len(b),
    decreases a.len(),
{
    if a.len() == 0 {
        assert(a + b =~= b);
    } else {
        lemma_utf8_len_concat(a.drop_first(), b);
        assert((a + b).drop_first() =~= a.drop_first() + b);
        assert((a + b)[0] == a[0]);
    }
}

/// The UTF-8 length of a single character is its width.
pub proof fn lemma_utf8_len_one(c: char)
    ensures
        utf8_len(seq![c]) == char_width(c),
{
    lemma_encode_scalar_len(c);
    assert(seq![c].drop_first() =~= Seq::<char>::empty());
    assert(encode_utf8(Seq::<char>::empty()) =~= Seq::<u8>::empty());
    assert(seq![c][0] == c);
    assert(encode_utf8(seq![c]) == encode_scalar(c as u32) + encode_utf8(seq![c].drop_first()));
    assert(encode_utf8(seq![c]) =~= encode_scalar(c as u32));
}

/// The UTF-8 length of a character vector (`str::len` of its string).
pub fn utf8_length(v: &Vec<char>) -> (n: u128)
    ensures
        n == utf8_len(v@),
{
    let mut n: u128 = 0;
    let mut i: usize = 0;
    assert(v@.take(0) =~= Seq::<char>::empty());
    while i < v.len()
        invariant
            i <= v.len(),
            n == utf8_len(v@.take(i as int)),
            n <= 4 * i,
        decreases v.len() - i,
    {
        let c = v[i];
        let u = c as u32;
        let w: u128 = if u <= 0x7F { 1 } else if u <= 0x7FF { 2 } else if u <= 0xFFFF { 3 } else { 4 };
        proof {
            lemma_utf8_len_concat(v@.take(i as int), seq![c]);
            lemma_utf8_len_one(c);
            assert(v@.take(i + 1) =~= v@.take(i as int) + seq![c]);
        }
        n = n + w;
        i += 1;
    }
    assert(v@.take(v.len() as int) =~= v@);
    n
}


/// The first index `j >= i` where `s` holds two consecutive newlines.
pub open spec fn find_blank(s: Seq<char>, i: int) -> Option<int>
    decreases s.len() - i,
{
    if i < 0 || i + 1 >= s.len() {
        None
    } else if s[i] == '\n' && s[i + 1] == '\n' {
        Some(i)
    } else {
        find_blank(s, i + 1)
    }
}

proof fn lemma_find_blank_bounds(s: Seq<char>, i: int)
    requires
        0 <= i,
    ensures
        find_blank(s, i) matches Some(j) ==> i <= j && j + 1 < s.len(),
    decreases s.len() - i,
{
    if i + 1 < s.len() && !(s[i] == '\n' && s[i + 1] == '\n') {
        lemma_find_blank_bounds(s, i + 1);
    }
}

/// `str::split("\n\n")` on the part of `s` from `start`.
pub open spec fn split_blank_from(s: Seq<char>, start: int) -> Seq<Seq<char>>
    decreases s.len() - start,
{
    if start < 0 || start > s.len() {
        Seq::empty()
    } else {
        match find_blank(s, start) {
            None => seq![s.subrange(start, s.len() as int)],
            Some(j) => if j >= start && j + 2 <= s.len() {
                seq![s.subrange(start, j)] + split_blank_from(s, j + 2)
            } else {
                Seq::empty()
            },
        }
    }
}

/// `str::split("\n\n")`: the paragraphs of `s`.
pub open spec fn split_paragraphs(s: Seq<char>) -> Seq<Seq<char>> {
    split_blank_from(s, 0)
}

/// The views of a vector of character vectors.
pub open spec fn pieces_view(v: Seq<Vec<char>>) -> Seq<Seq<char>> {
    v.map_values(|x: Vec<char>| x@)
}

/// Splits `v` into paragraphs at each pair of consecutive newlines.
pub fn split_paragraph_chars(v: &Vec<char>) -> (parts: Vec<Vec<char>>)
    ensures
        pieces_view(parts@) == split_paragraphs(v@),
{
    let mut parts: Vec<Vec<char>> = Vec::new();
    let mut cur: Vec<char> = Vec::new();
    let mut start: usize = 0;
    let mut i: usize = 0;
    while i < v.len()
        invariant
            start <= i <= v.len(),
            cur@ == v@.subrange(start as int, i as int),
            find_blank(v@, start as int) == find_blank(v@, i as int),
            pieces_view(parts@) + split_blank_from(v@, start as int) == split_paragraphs(v@),
        decreases v.len() - i,
    {
        if v[i] == '\n' && i + 1 < v.len() && v[i + 1] == '\n' {
            proof {
                assert(find_blank(v@, i as int) == Some(i as int));
                let rest = split_blank_from(v@, i + 2);
                assert(split_blank_from(v@, start as int) == seq![v@.subrange(start as int, i as int)] + rest);
                assert(pieces_view(parts@.push(cur)) =~= pieces_view(parts@).push(cur@));
                assert(pieces_view(parts@).push(cur@) + rest =~= pieces_view(parts@) + (seq![cur@] + rest));
            }
            parts.push(cur);
            cur = Vec::new();
            i = i + 2;
            start = i;
            assert(cur@ =~= v@.subrange(start as int, i as int));
        } else {
            cur.push(v[i]);
            i = i + 1;
            assert(cur@ =~= v@.subrange(start as int, i as int));
        }
    }
    proof {
        assert(find_blank(v@, i as int) is None);
        assert(split_blank_from(v@, start as int) == seq![v@.subrange(start as int, v@.len() as int)]);
        assert(pieces_view(parts@.push(cur)) =~= pieces_view(parts@).push(cur@));
        assert(pieces_view(parts@).push(cur@) =~= pieces_view(parts@) + seq![cur@]);
    }
    parts.push(cur);
    parts
}


/// The state of chunking: finished chunks and the chunk being filled.
pub struct ChunkState {
    pub chunks: Seq<Seq<char>>,
    pub cur: Seq<char>,
}

/// Finishes the chunk being filled, if it holds anything.
pub open spec fn flush_chunk(st: ChunkState) -> ChunkState {
    if st.cur.len() > 0 {
        ChunkState { chunks: st.chunks.push(st.cur), cur: Seq::empty() }
    } else {
        st
    }
}

/// Starts a new chunk first if appending `extra` more bytes to the current
/// one would exceed `target`.
pub open spec fn make_room(st: ChunkState, piece: Seq<char>, sep_len: nat, target: nat) -> ChunkState {
    if st.cur.len() > 0 && utf8_len(st.cur) + utf8_len(piece) + sep_len > target {
        ChunkState { chunks: st.chunks.push(st.cur), cur: Seq::empty() }
    } else {
        st
    }
}

/// Adds one line of an oversized paragraph: lines are joined by a newline.
pub open spec fn add_line(st: ChunkState, raw: Seq<char>, target: nat) -> ChunkState {
    let l = trim(raw);
    if l.len() == 0 {
        st
    } else {
        let st1 = make_room(st, l, 1, target);
        ChunkState {
            chunks: st1.chunks,
            cur: if st1.cur.len() > 0 { st1.cur.push('\n') + l } else { l },
        }
    }
}

/// Adds the lines of an oversized paragraph in order.
pub open spec fn add_lines(st: ChunkState, lines: Seq<Seq<char>>, target: nat) -> ChunkState
    decreases lines.len(),
{
    if lines.len() == 0 {
        st
    } else {
        add_line(add_lines(st, lines.drop_last(), target), lines.last(), target)
    }
}

/// Adds one paragraph: paragraphs are joined by a blank line; a paragraph
/// larger than `target` is split into its lines.
pub open spec fn add_paragraph(st: ChunkState, raw: Seq<char>, target: nat) -> ChunkState {
    let p = trim(raw);
    if p.len() == 0 {
        st
    } else {
        let st1 = make_room(st, p, 2, target);
        if utf8_len(p) > target {
            add_lines(flush_chunk(st1), split_on(p, '\n'), target)
        } else {
            ChunkState {
                chunks: st1.chunks,
                cur: if st1.cur.len() > 0 { st1.cur + seq!['\n', '\n'] + p } else { p },
            }
        }
    }
}

/// Adds paragraphs in order.
pub open spec fn add_paragraphs(st: ChunkState, paras: Seq<Seq<char>>, target: nat) -> ChunkState
    decreases paras.len(),
{
    if paras.len() == 0 {
        st
    } else {
        add_paragraph(add_paragraphs(st, paras.drop_last(), target), paras.last(), target)
    }
}

/// The chunks of `text` for a target size of `target` bytes: paragraphs
/// (separated by blank lines) are packed into chunks of about `target` bytes;
/// a paragraph larger than that is packed line by line; pieces are trimmed
/// and empty ones skipped. A text with content but no chunks gives one chunk,
/// the trimmed text.
pub open spec fn spec_chunk_text(text: Seq<char>, target: nat) -> Seq<Seq<char>> {
    let st = flush_chunk(add_paragraphs(ChunkState { chunks: Seq::empty(), cur: Seq::empty() }, split_paragraphs(text), target));
    if st.chunks.len() == 0 && trim(text).len() > 0 {
        seq![trim(text)]
    } else {
        st.chunks
    }
}

/// Moves the chunk being filled to the finished chunks.
fn push_chunk(chunks: &mut Vec<Vec<char>>, cur: &mut Vec<char>, cur_len: &mut u128)
    ensures
        pieces_view(final(chunks)@) == pieces_view(old(chunks)@).push(old(cur)@),
        final(cur)@ == Seq::<char>::empty(),
        *final(cur_len) == 0,
{
    let mut taken: Vec<char> = Vec::new();
    std::mem::swap(&mut taken, cur);
    chunks.push(taken);
    *cur_len = 0;
    assert(pieces_view(chunks@) =~= pieces_view(old(chunks)@).push(old(cur)@));
}

/// Appends `piece` (preceded by `sep` newlines when the chunk is not empty).
fn append_piece(cur: &mut Vec<char>, cur_len: &mut u128, piece: &Vec<char>, piece_len: u128, sep: usize)
    requires
        *old(cur_len) == utf8_len(old(cur)@),
        piece_len == utf8_len(piece@),
        sep == 1 || sep == 2,
        *old(cur_len) <= 4 * old(cur)@.len(),
        piece_len <= 4 * piece@.len(),
    ensures
        final(cur)@ == if old(cur)@.len() > 0 {
            if sep == 1 { old(cur)@.push('\n') + piece@ } else { old(cur)@ + seq!['\n', '\n'] + piece@ }
        } else {
            piece@
        },
        *final(cur_len) == utf8_len(final(cur)@),
        *final(cur_len) <= 4 * final(cur)@.len(),
{
    let ghost c0 = cur@;
    if cur.len() > 0 {
        cur.push('\n');
        proof {
            lemma_utf8_len_concat(c0, seq!['\n']);
            lemma_utf8_len_one('\n');
            assert(c0 + seq!['\n'] =~= c0.push('\n'));
        }
        *cur_len = *cur_len + 1;
        if sep == 2 {
            let ghost c1 = cur@;
            cur.push('\n');
            proof {
                lemma_utf8_len_concat(c1, seq!['\n']);
                assert(c1 + seq!['\n'] =~= c1.push('\n'));
                assert(c1.push('\n') =~= c0 + seq!['\n', '\n']);
            }
            *cur_len = *cur_len + 1;
        }
    }
    let ghost c2 = cur@;
    let mut i: usize = 0;
    while i < piece.len()
        invariant
            i <= piece.len(),
            cur@ == c2 + piece@.take(i as int),
        decreases piece.len() - i,
    {
        cur.push(piece[i]);
        i += 1;
        assert(cur@ =~= c2 + piece@.take(i as int));
    }
    assert(piece@.take(piece.len() as int) =~= piece@);
    proof {
        lemma_utf8_len_concat(c2, piece@);
        if c0.len() > 0 {
            if sep == 1 {
                assert(c2 == c0.push('\n'));
            } else {
                assert(c2 =~= c0 + seq!['\n', '\n']);
            }
        } else {
            assert(c2 =~= Seq::<char>::empty());
            assert(c2 + piece@ =~= piece@);
        }
    }
    *cur_len = *cur_len + piece_len;
}

/// Split text into chunks of approximately `target_chars` bytes.
/// First split on double newlines (paragraphs), then on single newlines
/// if a paragraph is too large.
pub fn chunk_text(text: &str, target_chars: usize) -> (chunks: Vec<String>)
    ensures
        chunks@.map_values(|c: String| c@) == spec_chunk_text(text@, target_chars as nat),
{
    let v = chars_of(text);
    let paragraphs = split_paragraph_chars(&v);
    let ghost target = target_chars as nat;
    let ghost paras = pieces_view(paragraphs@);
    let ghost init = ChunkState { chunks: Seq::empty(), cur: Seq::empty() };
    let mut chunks: Vec<Vec<char>> = Vec::new();
    let mut current: Vec<char> = Vec::new();
    let mut cur_len: u128 = 0;
    let mut pi: usize = 0;
    assert(paras.take(0) =~= Seq::<Seq<char>>::empty());
    assert(pieces_view(chunks@) =~= Seq::<Seq<char>>::empty());
    while pi < paragraphs.len()
        invariant
            pi <= paragraphs.len(),
            paras == pieces_view(paragraphs@),
            target == target_chars as nat,
            init == (ChunkState { chunks: Seq::empty(), cur: Seq::empty() }),
            (ChunkState { chunks: pieces_view(chunks@), cur: current@ })
                == add_paragraphs(init, paras.take(pi as int), target),
            cur_len == utf8_len(current@),
            cur_len <= 4 * current@.len(),
        decreases paragraphs.len() - pi,
    {
        let ghost st0 = ChunkState { chunks: pieces_view(chunks@), cur: current@ };
        proof {
            assert(paras.take(pi + 1).drop_last() =~= paras.take(pi as int));
            assert(paras.take(pi + 1).last() == paras[pi as int]);
            assert(paras[pi as int] == paragraphs@[pi as int]@);
        }
        let p = trim_chars(&paragraphs[pi]);
        if p.len() > 0 {
            let plen = utf8_length(&p);
            proof { lemma_utf8_len_bound(p@); }
            if current.len() > 0 && cur_len + plen + 2 > target_chars as u128 {
                push_chunk(&mut chunks, &mut current, &mut cur_len);
            }
            let ghost st1 = ChunkState { chunks: pieces_view(chunks@), cur: current@ };
            assert(st1 == make_room(st0, p@, 2, target));
            if plen > target_chars as u128 {
                if current.len() > 0 {
                    push_chunk(&mut chunks, &mut current, &mut cur_len);
                }
                let ghost st2 = ChunkState { chunks: pieces_view(chunks@), cur: current@ };
                assert(st2 == flush_chunk(st1));
                let lines = split_chars(&p, '\n');
                let ghost lv = pieces_view(lines@);
                assert(lv =~= split_on(p@, '\n'));
                let mut li: usize = 0;
                assert(lv.take(0) =~= Seq::<Seq<char>>::empty());
                while li < lines.len()
                    invariant
                        li <= lines.len(),
                        lv == pieces_view(lines@),
                        target == target_chars as nat,
                        (ChunkState { chunks: pieces_view(chunks@), cur: current@ })
                            == add_lines(st2, lv.take(li as int), target),
                        cur_len == utf8_len(current@),
                        cur_len <= 4 * current@.len(),
                    decreases lines.len() - li,
                {
                    let ghost sl0 = ChunkState { chunks: pieces_view(chunks@), cur: current@ };
                    proof {
                        assert(lv.take(li + 1).drop_last() =~= lv.take(li as int));
                        assert(lv.take(li + 1).last() == lv[li as int]);
                        assert(lv[li as int] == lines@[li as int]@);
                    }
                    let l = trim_chars(&lines[li]);
                    if l.len() > 0 {
                        let ll = utf8_length(&l);
                        proof { lemma_utf8_len_bound(l@); }
                        if current.len() > 0 && cur_len + ll + 1 > target_chars as u128 {
                            push_chunk(&mut chunks, &mut current, &mut cur_len);
                        }
                        let ghost sl1 = ChunkState { chunks: pieces_view(chunks@), cur: current@ };
                        assert(sl1 == make_room(sl0, l@, 1, target));
                        append_piece(&mut current, &mut cur_len, &l, ll, 1);
                    }
                    li += 1;
                }
                assert(lv.take(lv.len() as int) =~= lv);
            } else {
                append_piece(&mut current, &mut cur_len, &p, plen, 2);
            }
        }
        pi += 1;
    }
    assert(paras.take(paras.len() as int) =~= paras);
    let ghost st_end = ChunkState { chunks: pieces_view(chunks@), cur: current@ };
    if current.len() > 0 {
        push_chunk(&mut chunks, &mut current, &mut cur_len);
    }
    assert(ChunkState { chunks: pieces_view(chunks@), cur: current@ } == flush_chunk(st_end));
    if chunks.len() == 0 {
        let t = trim_chars(&v);
        if t.len() > 0 {
            chunks.push(t);
            assert(pieces_view(chunks@) =~= seq![trim(v@)]);
        }
    }
    let mut out: Vec<String> = Vec::new();
    let mut k: usize = 0;
    while k < chunks.len()
        invariant
            k <= chunks.len(),
            out.len() == k,
            out@.map_values(|c: String| c@) == pieces_view(chunks@).take(k as int),
        decreases chunks.len() - k,
    {
        let sk = string_of(chunks[k].as_slice());
        assert(sk@ == pieces_view(chunks@)[k as int]);
        out.push(sk);
        assert(out@.map_values(|c: String| c@)[k as int] == sk@);
        k += 1;
        assert(out@.map_values(|c: String| c@) =~= pieces_view(chunks@).take(k as int));
    }
    assert(pieces_view(chunks@).take(chunks.len() as int) =~= pieces_view(chunks@));
    out
}

/// A character sequence's UTF-8 length is at most four bytes per character.
proof fn lemma_utf8_len_bound(s: Seq<char>)
    ensures
        utf8_len(s) <= 4 * s.len(),
    decreases s.len(),
{
    if s.len() > 0 {
        lemma_utf8_len_bound(s.drop_first());
        vstd::utf8::char_is_scalar(s[0]);
        lemma_encode_scalar_len(s[0]);
    }
}


/// Whether every chunk of a state is nonempty.
pub open spec fn chunks_nonempty(st: ChunkState) -> bool {
    forall|i: int| 0 <= i < st.chunks.len() ==> (#[trigger] st.chunks[i]).len() > 0
}

proof fn lemma_add_lines_nonempty(st: ChunkState, lines: Seq<Seq<char>>, target: nat)
    requires
        chunks_nonempty(st),
    ensures
        chunks_nonempty(add_lines(st, lines, target)),
    decreases lines.len(),
{
    if lines.len() > 0 {
        lemma_add_lines_nonempty(st, lines.drop_last(), target);
    }
}

proof fn lemma_add_paragraphs_nonempty(st: ChunkState, paras: Seq<Seq<char>>, target: nat)
    requires
        chunks_nonempty(st),
    ensures
        chunks_nonempty(add_paragraphs(st, paras, target)),
    decreases paras.len(),
{
    if paras.len() > 0 {
        lemma_add_paragraphs_nonempty(st, paras.drop_last(), target);
        let s0 = add_paragraphs(st, paras.drop_last(), target);
        let p = trim(paras.last());
        if p.len() > 0 {
            let s1 = make_room(s0, p, 2, target);
            if utf8_len(p) > target {
                lemma_add_lines_nonempty(flush_chunk(s1), split_on(p, '\n'), target);
            }
        }
    }
}

/// Every chunk holds at least one character, and a text that is not all
/// whitespace gives at least one chunk.
pub proof fn lemma_chunks_are_nonempty(text: Seq<char>, target: nat)
    ensures
        forall|i: int| 0 <= i < spec_chunk_text(text, target).len() ==> (#[trigger] spec_chunk_text(text, target)[i]).len() > 0,
        trim(text).len() > 0 ==> spec_chunk_text(text, target).len() > 0,
{
    let init = ChunkState { chunks: Seq::empty(), cur: Seq::empty() };
    lemma_add_paragraphs_nonempty(init, split_paragraphs(text), target);
}


/// What `str::to_lowercase` makes of a text (Unicode lowercase mapping).
pub uninterp spec fn spec_to_lowercase(s: Seq<char>) -> Seq<char>;

/// `str::to_lowercase`. Its result is named by `spec_to_lowercase`; the Unicode
/// mapping itself is not restated.
#[verifier::external_body]
fn to_lowercase(s: &str) -> (r: String)
    ensures
        r@ == spec_to_lowercase(s@),
{
    s.to_lowercase()
}

/// The last piece of `s` split on `.` (`rsplit('.').next()`): the text after
/// the last dot, or all of `s` when it has none.
pub open spec fn spec_last_dot_piece(s: Seq<char>) -> Seq<char> {
    split_on(s, '.').last()
}

/// Extract file extension from filename.
pub fn file_extension(filename: &str) -> (r: String)
    ensures
        r@ == spec_last_dot_piece(filename@),
{
    let v = chars_of(filename);
    let parts = split_chars(&v, '.');
    let last = parts.len() - 1;
    string_of(parts[last].as_slice())
}

/// The content type of a lowercase extension.
pub open spec fn spec_content_type(ext: Seq<char>) -> Seq<char> {
    if ext == "txt"@ { "text/plain"@ }
    else if ext == "md"@ { "text/markdown"@ }
    else if ext == "json"@ { "application/json"@ }
    else if ext == "csv"@ { "text/csv"@ }
    else if ext == "html"@ || ext == "htm"@ { "text/html"@ }
    else if ext == "xml"@ { "application/xml"@ }
    else if ext == "yaml"@ || ext == "yml"@ { "application/yaml"@ }
    else if ext == "pdf"@ { "application/pdf"@ }
    else if ext == "docx"@ { "application/vnd.openxmlformats-officedocument.wordprocessingml.document"@ }
    else { "application/octet-stream"@ }
}

/// The content type of an already lowercased extension.
pub fn content_type_for_ext(ext: &str) -> (r: &'static str)
    ensures
        r@ == spec_content_type(ext@),
{
    if str_eq(ext, "txt") { "text/plain" }
    else if str_eq(ext, "md") { "text/markdown" }
    else if str_eq(ext, "json") { "application/json" }
    else if str_eq(ext, "csv") { "text/csv" }
    else if str_eq(ext, "html") || str_eq(ext, "htm") { "text/html" }
    else if str_eq(ext, "xml") { "application/xml" }
    else if str_eq(ext, "yaml") || str_eq(ext, "yml") { "application/yaml" }
    else if str_eq(ext, "pdf") { "application/pdf" }
    else if str_eq(ext, "docx") { "application/vnd.openxmlformats-officedocument.wordprocessingml.document" }
    else { "application/octet-stream" }
}

/// Derive content type from file extension (compared case-insensitively).
pub fn content_type_from_ext(filename: &str) -> (r: &'static str)
    ensures
        r@ == spec_content_type(spec_to_lowercase(spec_last_dot_piece(filename@))),
{
    let ext = file_extension(filename);
    let lower = to_lowercase(&ext);
    content_type_for_ext(&lower)
}

/// Estimate token count of a chunk: ~4 bytes per token, at least 1.
pub fn estimate_tokens(text: &str) -> (r: i32)
    ensures
        r == spec_estimate_tokens(text@),
{
    crate::prompt::estimate_tokens(text)
}


/// `String::from_utf8_lossy(bytes)`: the bytes read as UTF-8, each invalid
/// sequence replaced by U+FFFD.
pub uninterp spec fn spec_utf8_lossy(bytes: Seq<u8>) -> Seq<char>;

/// `String::from_utf8_lossy(bytes).to_string()`. Valid UTF-8 is read as it is.
#[verifier::external_body]
fn utf8_lossy(bytes: &[u8]) -> (r: String)
    ensures
        r@ == spec_utf8_lossy(bytes@),
        valid_utf8(bytes@) ==> r@ == decode_utf8(bytes@),
{
    String::from_utf8_lossy(bytes).to_string()
}

/// An uploaded document, before it is stored.
pub struct UploadInput {
    pub file_data: Vec<u8>,
    pub original_filename: String,
    pub doc_name: String,
    pub source: String,
}

/// A chunk of a document, ready to store.
pub struct PreparedChunk {
    pub content: String,
    pub token_count: i32,
}

/// What is stored of an uploaded document: the file's extension, its
/// content type, its token estimate, and its chunks.
pub struct PreparedDocument {
    pub extension: String,
    pub content_type: &'static str,
    pub token_count: i32,
    pub chunks: Vec<PreparedChunk>,
}

/// The target size of a stored chunk, in bytes.
pub const UPLOAD_CHUNK_BYTES: usize = 2000;

/// Prepares an upload for storage: the text is the file read as UTF-8 (with
/// replacement characters for invalid bytes), estimated as a whole and cut
/// into chunks of about 2000 bytes, each estimated too.
pub fn prepare_upload(input: &UploadInput) -> (r: PreparedDocument)
    ensures
        r.extension@ == spec_last_dot_piece(input.original_filename@),
        r.content_type@ == spec_content_type(spec_to_lowercase(spec_last_dot_piece(input.original_filename@))),
        r.token_count == spec_estimate_tokens(spec_utf8_lossy(input.file_data@)),
        r.chunks@.map_values(|c: PreparedChunk| c.content@)
            == spec_chunk_text(spec_utf8_lossy(input.file_data@), UPLOAD_CHUNK_BYTES as nat),
        forall|i: int| 0 <= i < r.chunks@.len() ==> (#[trigger] r.chunks@[i]).token_count == spec_estimate_tokens(r.chunks@[i].content@),
{
    let extension = file_extension(input.original_filename.as_str());
    let content_type = content_type_from_ext(input.original_filename.as_str());
    let text = utf8_lossy(input.file_data.as_slice());
    let token_count = estimate_tokens(text.as_str());
    let pieces = chunk_text(text.as_str(), UPLOAD_CHUNK_BYTES);
    let mut chunks: Vec<PreparedChunk> = Vec::new();
    let mut i: usize = 0;
    while i < pieces.len()
        invariant
            i <= pieces.len(),
            chunks@.len() == i,
            forall|k: int| 0 <= k < i ==> (#[trigger] chunks@[k]).content@ == pieces@[k]@
                && chunks@[k].token_count == spec_estimate_tokens(pieces@[k]@),
        decreases pieces.len() - i,
    {
        let t = estimate_tokens(pieces[i].as_str());
        chunks.push(PreparedChunk { content: pieces[i].clone(), token_count: t });
        i += 1;
    }
    assert(chunks@.map_values(|c: PreparedChunk| c.content@) =~= pieces@.map_values(|c: String| c@));
    PreparedDocument { extension, content_type, token_count, chunks }
}


// ── Laws of chunking ────────────────────────────────────────────

/// The characters of `s` that are not whitespace, in order.
pub open spec fn nonws(s: Seq<char>) -> Seq<char>
    decreases s.len(),
{
    if s.len() == 0 {
        Seq::empty()
    } else {
        nonws(s.drop_last()) + if is_ws(s.last()) { Seq::<char>::empty() } else { seq![s.last()] }
    }
}

/// Dropping whitespace distributes over concatenation.
pub proof fn lemma_nonws_concat(a: Seq<char>, b: Seq<char>)
    ensures
        nonws(a + b) == nonws(a) + nonws(b),
    decreases b.len(),
{
    if b.len() == 0 {
        assert(a + b =~= a);
        assert(nonws(a) + nonws(b) =~= nonws(a));
    } else {
        lemma_nonws_concat(a, b.drop_last());
        assert((a + b).drop_last() =~= a + b.drop_last());
        assert((a + b).last() == b.last());
        assert(nonws(a) + nonws(b) =~= nonws(a) + nonws(b.drop_last())
            + (if is_ws(b.last()) { Seq::<char>::empty() } else { seq![b.last()] }));
    }
}

/// Only whitespace leaves nothing.
pub proof fn lemma_nonws_all_ws(s: Seq<char>)
    requires
        forall|k: int| 0 <= k < s.len() ==> is_ws(#[trigger] s[k]),
    ensures
        nonws(s) == Seq::<char>::empty(),
    decreases s.len(),
{
    if s.len() > 0 {
        assert forall|k: int| 0 <= k < s.drop_last().len() implies is_ws(#[trigger] s.drop_last()[k]) by {
            assert(s.drop_last()[k] == s[k]);
        }
        lemma_nonws_all_ws(s.drop_last());
        assert(is_ws(s[s.len() - 1]));
    }
}

/// Trimming drops only whitespace; a trimmed text that is not empty begins
/// and ends with a character that is not whitespace; and a text trims to
/// nothing exactly when it is all whitespace.
pub proof fn lemma_trim_facts(s: Seq<char>)
    ensures
        nonws(trim(s)) == nonws(s),
        trim(s).len() > 0 ==> !is_ws(trim(s)[0]) && !is_ws(trim(s).last()),
        trim(s).len() > 0 <==> nonws(s).len() > 0,
        forall|k: int| 0 <= k < trim(s).len() ==> trim(s)[k] == s[trim_start_idx(s, 0) + k],
{
    let a = trim_start_idx(s, 0);
    lemma_trim_start_bounds(s, 0);
    let e = trim_end_idx(s, a, s.len() as int);
    lemma_trim_end_bounds(s, a, s.len() as int);
    let pre = s.subrange(0, a);
    let mid = s.subrange(a, e);
    let post = s.subrange(e, s.len() as int);
    assert(s =~= pre + mid + post);
    assert forall|k: int| 0 <= k < pre.len() implies is_ws(#[trigger] pre[k]) by { assert(pre[k] == s[k]); }
    assert forall|k: int| 0 <= k < post.len() implies is_ws(#[trigger] post[k]) by { assert(post[k] == s[e + k]); }
    lemma_nonws_all_ws(pre);
    lemma_nonws_all_ws(post);
    lemma_nonws_concat(pre + mid, post);
    lemma_nonws_concat(pre, mid);
    assert(nonws(s) =~= nonws(mid));
    if mid.len() > 0 {
        assert(mid[0] == s[a]);
        assert(mid.last() == s[e - 1]);
        assert(mid =~= mid.drop_last().push(mid.last()));
        lemma_nonws_concat(seq![mid[0]], mid.drop_first());
        assert(mid =~= seq![mid[0]] + mid.drop_first());
        assert(seq![mid[0]].drop_last() =~= Seq::<char>::empty());
        assert(!is_ws(mid[0]));
        assert(seq![mid[0]].last() == mid[0]);
        assert(nonws(Seq::<char>::empty()) == Seq::<char>::empty());
        assert(nonws(seq![mid[0]]) =~= seq![mid[0]]);
    } else {
        if a < s.len() {
            lemma_trim_end_bounds(s, a, s.len() as int);
            assert(!is_ws(s[a]));
            if e == a {
                assert forall|k: int| a <= k < s.len() implies is_ws(s[k]) by {}
                assert(is_ws(s[a]));
            }
        }
    }
}

/// The characters that are not whitespace of pieces, in order.
pub open spec fn concat_nonws(ps: Seq<Seq<char>>) -> Seq<char>
    decreases ps.len(),
{
    if ps.len() == 0 { Seq::empty() } else { concat_nonws(ps.drop_last()) + nonws(ps.last()) }
}

proof fn lemma_concat_nonws_one(x: Seq<char>)
    ensures
        concat_nonws(seq![x]) == nonws(x),
{
    assert(seq![x].drop_last() =~= Seq::<Seq<char>>::empty());
    assert(seq![x].last() == x);
    assert(concat_nonws(Seq::<Seq<char>>::empty()) == Seq::<char>::empty());
    assert(Seq::<char>::empty() + nonws(x) =~= nonws(x));
}

proof fn lemma_concat_nonws_add(a: Seq<Seq<char>>, b: Seq<Seq<char>>)
    ensures
        concat_nonws(a + b) == concat_nonws(a) + concat_nonws(b),
    decreases b.len(),
{
    if b.len() == 0 {
        assert(a + b =~= a);
        assert(concat_nonws(a) + concat_nonws(b) =~= concat_nonws(a));
    } else {
        lemma_concat_nonws_add(a, b.drop_last());
        assert((a + b).drop_last() =~= a + b.drop_last());
        assert((a + b).last() == b.last());
        assert(concat_nonws(a) + concat_nonws(b) =~= concat_nonws(a) + concat_nonws(b.drop_last()) + nonws(b.last()));
    }
}

/// Joining pieces with a whitespace separator adds no other character.
proof fn lemma_nonws_join(parts: Seq<Seq<char>>, sep: char)
    requires
        is_ws(sep),
    ensures
        nonws(join_with(parts, sep)) == concat_nonws(parts),
    decreases parts.len(),
{
    if parts.len() == 1 {
        assert(parts =~= seq![parts[0]]);
        lemma_concat_nonws_one(parts[0]);
    } else if parts.len() > 1 {
        lemma_nonws_join(parts.drop_last(), sep);
        let j = join_with(parts.drop_last(), sep);
        lemma_nonws_concat(j.push(sep), parts.last());
        assert(j.push(sep).drop_last() =~= j);
        assert(nonws(j.push(sep)) =~= nonws(j));
    }
}

proof fn lemma_find_blank_at(s: Seq<char>, i: int)
    requires
        0 <= i,
    ensures
        find_blank(s, i) matches Some(j) ==> i <= j && j + 1 < s.len() && s[j] == '\n' && s[j + 1] == '\n',
    decreases s.len() - i,
{
    if i + 1 < s.len() && !(s[i] == '\n' && s[i + 1] == '\n') {
        lemma_find_blank_at(s, i + 1);
    }
}

/// Splitting into paragraphs drops only the blank lines between them.
proof fn lemma_nonws_split_blank(s: Seq<char>, start: int)
    requires
        0 <= start <= s.len(),
    ensures
        nonws(s.subrange(start, s.len() as int)) == concat_nonws(split_blank_from(s, start)),
    decreases s.len() - start,
{
    lemma_find_blank_at(s, start);
    match find_blank(s, start) {
        None => {
            let x = s.subrange(start, s.len() as int);
            lemma_concat_nonws_one(x);
        },
        Some(j) => {
            lemma_nonws_split_blank(s, j + 2);
            let a = s.subrange(start, j);
            let nl = s.subrange(j, j + 2);
            let b = s.subrange(j + 2, s.len() as int);
            assert(s.subrange(start, s.len() as int) =~= a + nl + b);
            assert(nl =~= seq!['\n', '\n']);
            assert forall|k: int| 0 <= k < nl.len() implies is_ws(#[trigger] nl[k]) by {}
            lemma_nonws_all_ws(nl);
            lemma_nonws_concat(a + nl, b);
            lemma_nonws_concat(a, nl);
            lemma_concat_nonws_add(seq![a], split_blank_from(s, j + 2));
            lemma_concat_nonws_one(a);
        },
    }
}

/// The paragraphs of a text hold its characters that are not whitespace.
pub proof fn lemma_nonws_paragraphs(s: Seq<char>)
    ensures
        nonws(s) == concat_nonws(split_paragraphs(s)),
{
    lemma_nonws_split_blank(s, 0);
    assert(s.subrange(0, s.len() as int) =~= s);
}

/// The lines of a text hold its characters that are not whitespace.
pub proof fn lemma_nonws_lines(s: Seq<char>)
    ensures
        nonws(s) == concat_nonws(split_on(s, '\n')),
{
    crate::text::lemma_join_split(s, '\n');
    lemma_nonws_join(split_on(s, '\n'), '\n');
}

/// No piece of a split holds the separator.
pub proof fn lemma_split_pieces_no_sep(s: Seq<char>, sep: char)
    ensures
        forall|i: int, k: int| 0 <= i < split_on(s, sep).len() && 0 <= k < split_on(s, sep)[i].len()
            ==> split_on(s, sep)[i][k] != sep,
    decreases s.len(),
{
    if s.len() > 0 {
        lemma_split_pieces_no_sep(s.drop_last(), sep);
        crate::text::lemma_split_on_nonempty(s.drop_last(), sep);
        let rest = split_on(s.drop_last(), sep);
        let r = split_on(s, sep);
        assert forall|i: int, k: int| 0 <= i < r.len() && 0 <= k < r[i].len() implies r[i][k] != sep by {
            if s.last() == sep {
                if i < rest.len() { assert(r[i] == rest[i]); }
            } else {
                if i < rest.len() - 1 {
                    assert(r[i] == rest[i]);
                } else {
                    assert(r[i] == rest.last().push(s.last()));
                    if k < rest.last().len() {
                        assert(rest.last() == rest[rest.len() - 1]);
                    }
                }
            }
        }
    }
}

/// The pieces joined one after another.
pub open spec fn flat(cs: Seq<Seq<char>>) -> Seq<char>
    decreases cs.len(),
{
    if cs.len() == 0 { Seq::empty() } else { flat(cs.drop_last()) + cs.last() }
}

/// Everything a chunking state holds: its chunks, then the chunk being filled.
pub open spec fn state_text(st: ChunkState) -> Seq<char> {
    flat(st.chunks) + st.cur
}

/// A chunk as chunking makes it: not empty, beginning and ending with a
/// character that is not whitespace, and within the target size unless it
/// is a single line.
pub open spec fn good_piece(c: Seq<char>, target: nat) -> bool {
    &&& c.len() > 0
    &&& !is_ws(c[0])
    &&& !is_ws(c.last())
    &&& (utf8_len(c) <= target || !c.contains('\n'))
}

/// Every chunk of a state, and the chunk being filled when it holds
/// anything, is as chunking makes it.
pub open spec fn good_state(st: ChunkState, target: nat) -> bool {
    &&& forall|i: int| 0 <= i < st.chunks.len() ==> good_piece(#[trigger] st.chunks[i], target)
    &&& (st.cur.len() > 0 ==> good_piece(st.cur, target))
}

proof fn lemma_flat_push(cs: Seq<Seq<char>>, c: Seq<char>)
    ensures
        flat(cs.push(c)) == flat(cs) + c,
{
    assert(cs.push(c).drop_last() =~= cs);
}

proof fn lemma_make_room(st: ChunkState, piece: Seq<char>, sep_len: nat, target: nat)
    requires
        good_state(st, target),
    ensures
        state_text(make_room(st, piece, sep_len, target)) == state_text(st),
        good_state(make_room(st, piece, sep_len, target), target),
        make_room(st, piece, sep_len, target).cur.len() > 0 ==> make_room(st, piece, sep_len, target).cur == st.cur
            && utf8_len(st.cur) + utf8_len(piece) + sep_len <= target,
{
    if st.cur.len() > 0 && utf8_len(st.cur) + utf8_len(piece) + sep_len > target {
        lemma_flat_push(st.chunks, st.cur);
        let r = make_room(st, piece, sep_len, target);
        assert(state_text(r) =~= state_text(st));
        assert forall|i: int| 0 <= i < r.chunks.len() implies good_piece(#[trigger] r.chunks[i], target) by {
            if i < st.chunks.len() { assert(r.chunks[i] == st.chunks[i]); }
        }
    }
}

proof fn lemma_flush(st: ChunkState, target: nat)
    requires
        good_state(st, target),
    ensures
        state_text(flush_chunk(st)) == state_text(st),
        good_state(flush_chunk(st), target),
        flush_chunk(st).cur.len() == 0,
{
    if st.cur.len() > 0 {
        lemma_flat_push(st.chunks, st.cur);
        let r = flush_chunk(st);
        assert(state_text(r) =~= state_text(st));
        assert forall|i: int| 0 <= i < r.chunks.len() implies good_piece(#[trigger] r.chunks[i], target) by {
            if i < st.chunks.len() { assert(r.chunks[i] == st.chunks[i]); }
        }
    }
}

/// Joining two good pieces with whitespace keeps the ends.
proof fn lemma_join_ends(a: Seq<char>, sep: Seq<char>, b: Seq<char>)
    requires
        a.len() > 0,
        b.len() > 0,
    ensures
        (a + sep + b)[0] == a[0],
        (a + sep + b).last() == b.last(),
        (a + sep + b).len() > 0,
{
}

proof fn lemma_no_newline_trim(raw: Seq<char>)
    requires
        !raw.contains('\n'),
    ensures
        !trim(raw).contains('\n'),
{
    lemma_trim_facts(raw);
    if trim(raw).contains('\n') {
        let k = choose|k: int| 0 <= k < trim(raw).len() && trim(raw)[k] == '\n';
        lemma_trim_start_bounds(raw, 0);
        lemma_trim_end_bounds(raw, trim_start_idx(raw, 0), raw.len() as int);
        assert(raw[trim_start_idx(raw, 0) + k] == '\n');
    }
}

proof fn lemma_add_line_law(st: ChunkState, raw: Seq<char>, target: nat)
    requires
        good_state(st, target),
        !raw.contains('\n'),
    ensures
        nonws(state_text(add_line(st, raw, target))) == nonws(state_text(st)) + nonws(raw),
        good_state(add_line(st, raw, target), target),
{
    let l = trim(raw);
    lemma_trim_facts(raw);
    if l.len() == 0 {
        assert(nonws(raw).len() == 0);
        assert(nonws(state_text(st)) + nonws(raw) =~= nonws(state_text(st)));
    } else {
        lemma_no_newline_trim(raw);
        lemma_make_room(st, l, 1, target);
        let st1 = make_room(st, l, 1, target);
        let r = add_line(st, raw, target);
        lemma_nonws_concat(flat(st1.chunks), st1.cur);
        if st1.cur.len() > 0 {
            let nl = seq!['\n'];
            assert(st1.cur.push('\n') =~= st1.cur + nl);
            assert(r.cur == st1.cur + nl + l);
            assert(state_text(r) =~= state_text(st1) + nl + l);
            lemma_nonws_concat(state_text(st1) + nl, l);
            lemma_nonws_concat(state_text(st1), nl);
            assert forall|k: int| 0 <= k < nl.len() implies is_ws(#[trigger] nl[k]) by {}
            lemma_nonws_all_ws(nl);
            lemma_join_ends(st1.cur, nl, l);
            lemma_utf8_len_concat(st1.cur + nl, l);
            lemma_utf8_len_concat(st1.cur, nl);
            lemma_utf8_len_one('\n');
        } else {
            assert(r.cur == l);
            assert(state_text(r) =~= state_text(st1) + l);
            lemma_nonws_concat(state_text(st1), l);
        }
    }
}

proof fn lemma_add_lines_law(st: ChunkState, lines: Seq<Seq<char>>, target: nat)
    requires
        good_state(st, target),
        forall|i: int| 0 <= i < lines.len() ==> !(#[trigger] lines[i]).contains('\n'),
    ensures
        nonws(state_text(add_lines(st, lines, target))) == nonws(state_text(st)) + concat_nonws(lines),
        good_state(add_lines(st, lines, target), target),
    decreases lines.len(),
{
    if lines.len() == 0 {
        assert(nonws(state_text(st)) + concat_nonws(lines) =~= nonws(state_text(st)));
    } else {
        let rest = lines.drop_last();
        assert forall|i: int| 0 <= i < rest.len() implies !(#[trigger] rest[i]).contains('\n') by {
            assert(rest[i] == lines[i]);
        }
        lemma_add_lines_law(st, rest, target);
        assert(lines.last() == lines[lines.len() - 1]);
        lemma_add_line_law(add_lines(st, rest, target), lines.last(), target);
        assert(nonws(state_text(st)) + concat_nonws(rest) + nonws(lines.last())
            =~= nonws(state_text(st)) + concat_nonws(lines));
    }
}

proof fn lemma_add_paragraph_law(st: ChunkState, raw: Seq<char>, target: nat)
    requires
        good_state(st, target),
    ensures
        nonws(state_text(add_paragraph(st, raw, target))) == nonws(state_text(st)) + nonws(raw),
        good_state(add_paragraph(st, raw, target), target),
{
    let p = trim(raw);
    lemma_trim_facts(raw);
    if p.len() == 0 {
        assert(nonws(state_text(st)) + nonws(raw) =~= nonws(state_text(st)));
    } else {
        lemma_make_room(st, p, 2, target);
        let st1 = make_room(st, p, 2, target);
        let r = add_paragraph(st, raw, target);
        if utf8_len(p) > target {
            lemma_flush(st1, target);
            let lines = split_on(p, '\n');
            lemma_split_pieces_no_sep(p, '\n');
            assert forall|i: int| 0 <= i < lines.len() implies !(#[trigger] lines[i]).contains('\n') by {
                if lines[i].contains('\n') {
                    let k = choose|k: int| 0 <= k < lines[i].len() && lines[i][k] == '\n';
                }
            }
            lemma_add_lines_law(flush_chunk(st1), lines, target);
            lemma_nonws_lines(p);
        } else {
            let bl = seq!['\n', '\n'];
            if st1.cur.len() > 0 {
                assert(r.cur == st1.cur + bl + p);
                assert(state_text(r) =~= state_text(st1) + bl + p);
                lemma_nonws_concat(state_text(st1) + bl, p);
                lemma_nonws_concat(state_text(st1), bl);
                assert forall|k: int| 0 <= k < bl.len() implies is_ws(#[trigger] bl[k]) by {}
                lemma_nonws_all_ws(bl);
                lemma_join_ends(st1.cur, bl, p);
                lemma_utf8_len_concat(st1.cur + bl, p);
                lemma_utf8_len_concat(st1.cur, bl);
                lemma_utf8_len_concat(seq!['\n'], seq!['\n']);
                assert(seq!['\n'] + seq!['\n'] =~= bl);
                lemma_utf8_len_one('\n');
            } else {
                assert(r.cur == p);
                assert(state_text(r) =~= state_text(st1) + p);
                lemma_nonws_concat(state_text(st1), p);
            }
        }
    }
}

proof fn lemma_add_paragraphs_law(st: ChunkState, paras: Seq<Seq<char>>, target: nat)
    requires
        good_state(st, target),
    ensures
        nonws(state_text(add_paragraphs(st, paras, target))) == nonws(state_text(st)) + concat_nonws(paras),
        good_state(add_paragraphs(st, paras, target), target),
    decreases paras.len(),
{
    if paras.len() == 0 {
        assert(nonws(state_text(st)) + concat_nonws(paras) =~= nonws(state_text(st)));
    } else {
        lemma_add_paragraphs_law(st, paras.drop_last(), target);
        lemma_add_paragraph_law(add_paragraphs(st, paras.drop_last(), target), paras.last(), target);
        assert(nonws(state_text(st)) + concat_nonws(paras.drop_last()) + nonws(paras.last())
            =~= nonws(state_text(st)) + concat_nonws(paras));
    }
}

proof fn lemma_good_piece_trimmed(c: Seq<char>, target: nat)
    requires
        good_piece(c, target),
    ensures
        trim(c) == c,
        nonws(c).len() > 0,
{
    assert(trim_start_idx(c, 0) == 0);
    assert(c[c.len() - 1] == c.last());
    assert(trim_end_idx(c, 0, c.len() as int) == c.len());
    assert(c.subrange(0, c.len() as int) =~= c);
    lemma_trim_facts(c);
}

proof fn lemma_nonws_flat(cs: Seq<Seq<char>>)
    ensures
        nonws(flat(cs)) == concat_nonws(cs),
    decreases cs.len(),
{
    if cs.len() > 0 {
        lemma_nonws_flat(cs.drop_last());
        lemma_nonws_concat(flat(cs.drop_last()), cs.last());
    }
}

/// Chunking loses and invents nothing but whitespace: every chunk is a
/// trimmed piece that is not empty, within the target size unless it is a
/// single line; the chunks hold exactly the text's characters that are not
/// whitespace, in order; and there are none exactly when the text is all
/// whitespace.
pub proof fn lemma_chunk_text_law(text: Seq<char>, target: nat)
    ensures
        forall|i: int| 0 <= i < spec_chunk_text(text, target).len() ==> {
            let c = #[trigger] spec_chunk_text(text, target)[i];
            &&& c.len() > 0
            &&& trim(c) == c
            &&& (utf8_len(c) <= target || !c.contains('\n'))
        },
        nonws(flat(spec_chunk_text(text, target))) == nonws(text),
        spec_chunk_text(text, target).len() == 0 <==> trim(text).len() == 0,
{
    let init = ChunkState { chunks: Seq::empty(), cur: Seq::empty() };
    assert(good_state(init, target));
    let paras = split_paragraphs(text);
    lemma_add_paragraphs_law(init, paras, target);
    let st = add_paragraphs(init, paras, target);
    lemma_flush(st, target);
    let fin = flush_chunk(st);
    assert(state_text(init) =~= Seq::<char>::empty());
    assert(nonws(state_text(init)) == Seq::<char>::empty());
    assert(nonws(state_text(init)) + concat_nonws(paras) =~= concat_nonws(paras));
    lemma_nonws_paragraphs(text);
    assert(state_text(fin) =~= flat(fin.chunks));
    assert(nonws(flat(fin.chunks)) == nonws(text));
    lemma_trim_facts(text);
    if fin.chunks.len() > 0 {
        let c = fin.chunks.last();
        assert(c == fin.chunks[fin.chunks.len() - 1]);
        lemma_good_piece_trimmed(c, target);
        lemma_nonws_flat(fin.chunks);
        assert(concat_nonws(fin.chunks).len() > 0);
    }
    assert(spec_chunk_text(text, target) == fin.chunks);
    assert forall|i: int| 0 <= i < fin.chunks.len() implies {
        let c = #[trigger] fin.chunks[i];
        &&& c.len() > 0
        &&& trim(c) == c
        &&& (utf8_len(c) <= target || !c.contains('\n'))
    } by {
        lemma_good_piece_trimmed(fin.chunks[i], target);
    }
}

// ── Packing ─────────────────────────────────────────────────────

/// Whether `s` holds no blank line (no two consecutive newlines): the text
/// is a single paragraph.
pub open spec fn no_blank_line(s: Seq<char>) -> bool {
    forall|i: int, j: int| #![trigger s[i], s[j]] 0 <= i && j == i + 1 && j < s.len() ==> !(s[i] == '\n' && s[j] == '\n')
}

/// Whether no two neighbouring chunks could have been packed into one
/// chunk of at most `target` bytes joined by a separator of `sep` bytes.
pub open spec fn packed_tight(cs: Seq<Seq<char>>, sep: nat, target: nat) -> bool {
    forall|i: int, j: int| #![trigger cs[i], cs[j]] 0 <= i && j == i + 1 && j < cs.len()
        ==> utf8_len(cs[i]) + sep + utf8_len(cs[j]) > target
}

/// The chunks closed so far are packed tightly, and the chunk being filled
/// could not have joined the last of them.
pub open spec fn lines_packed(st: ChunkState, target: nat) -> bool {
    &&& packed_tight(st.chunks, 1, target)
    &&& st.chunks.len() > 0 ==> st.cur.len() > 0 && utf8_len(st.chunks.last()) + 1 + utf8_len(st.cur) > target
}

/// The paragraph chunks closed so far are packed tightly, and the chunk
/// being filled could not have joined the last of them.
pub open spec fn paras_packed(st: ChunkState, target: nat) -> bool {
    &&& packed_tight(st.chunks, 2, target)
    &&& st.chunks.len() > 0 ==> st.cur.len() > 0 && utf8_len(st.chunks.last()) + 2 + utf8_len(st.cur) > target
}

proof fn lemma_packed_push(cs: Seq<Seq<char>>, c: Seq<char>, sep: nat, target: nat)
    requires
        packed_tight(cs, sep, target),
        cs.len() > 0 ==> utf8_len(cs.last()) + sep + utf8_len(c) > target,
    ensures
        packed_tight(cs.push(c), sep, target),
{
    let r = cs.push(c);
    assert forall|i: int, j: int| #![trigger r[i], r[j]] 0 <= i && j == i + 1 && j < r.len()
        implies utf8_len(r[i]) + sep + utf8_len(r[j]) > target by {
        if j < cs.len() {
            assert(r[i] == cs[i] && r[j] == cs[j]);
        } else {
            assert(r[i] == cs.last() && r[j] == c);
        }
    }
}

proof fn lemma_utf8_len_empty()
    ensures
        utf8_len(Seq::<char>::empty()) == 0,
{
    let e = Seq::<char>::empty();
    lemma_utf8_len_concat(e, e);
    assert(e + e =~= e);
}

proof fn lemma_add_line_packed(st: ChunkState, raw: Seq<char>, target: nat)
    requires
        lines_packed(st, target),
    ensures
        lines_packed(add_line(st, raw, target), target),
{
    let l = trim(raw);
    if l.len() > 0 {
        let r = add_line(st, raw, target);
        if st.cur.len() > 0 && utf8_len(st.cur) + utf8_len(l) + 1 > target {
            lemma_packed_push(st.chunks, st.cur, 1, target);
            assert(r.chunks == st.chunks.push(st.cur));
            assert(r.cur == l);
            assert(r.chunks.last() == st.cur);
        } else if st.cur.len() > 0 {
            let nl = seq!['\n'];
            assert(st.cur.push('\n') + l =~= st.cur + nl + l);
            lemma_utf8_len_concat(st.cur + nl, l);
            lemma_utf8_len_concat(st.cur, nl);
            lemma_utf8_len_one('\n');
            assert(r.cur == st.cur.push('\n') + l);
            assert(utf8_len(r.cur) >= utf8_len(st.cur));
            assert(r.cur.len() > 0);
        } else {
            assert(r.chunks == st.chunks);
        }
    }
}

proof fn lemma_add_lines_packed(st: ChunkState, lines: Seq<Seq<char>>, target: nat)
    requires
        lines_packed(st, target),
    ensures
        lines_packed(add_lines(st, lines, target), target),
    decreases lines.len(),
{
    if lines.len() > 0 {
        lemma_add_lines_packed(st, lines.drop_last(), target);
        lemma_add_line_packed(add_lines(st, lines.drop_last(), target), lines.last(), target);
    }
}

proof fn lemma_find_blank_none(s: Seq<char>, i: int)
    requires
        0 <= i,
        no_blank_line(s),
    ensures
        find_blank(s, i) is None,
    decreases s.len() - i,
{
    if i + 1 < s.len() {
        assert(!(s[i] == '\n' && s[i + 1] == '\n'));
        lemma_find_blank_none(s, i + 1);
    }
}

/// A text without blank lines is a single paragraph.
proof fn lemma_single_paragraph(text: Seq<char>, target: nat)
    requires
        no_blank_line(text),
    ensures
        add_paragraphs(ChunkState { chunks: Seq::empty(), cur: Seq::empty() }, split_paragraphs(text), target)
            == add_paragraph(ChunkState { chunks: Seq::empty(), cur: Seq::empty() }, text, target),
{
    lemma_find_blank_none(text, 0);
    assert(text.subrange(0, text.len() as int) =~= text);
    let paras = split_paragraphs(text);
    assert(paras == seq![text]);
    let init = ChunkState { chunks: Seq::empty(), cur: Seq::empty() };
    assert(paras.drop_last() =~= Seq::<Seq<char>>::empty());
    assert(paras.last() == text);
    assert(add_paragraphs(init, paras.drop_last(), target) == init);
    assert(add_paragraphs(init, paras, target)
        == add_paragraph(add_paragraphs(init, paras.drop_last(), target), paras.last(), target));
}

/// A single paragraph larger than the target is packed line by line,
/// greedily: a chunk is closed only when the next line would not fit after
/// it, so no two neighbouring chunks would fit in the target joined by a
/// newline.
pub proof fn lemma_chunk_lines_packed(text: Seq<char>, target: nat)
    requires
        no_blank_line(text),
        utf8_len(trim(text)) > target,
    ensures
        forall|i: int, j: int| #![trigger spec_chunk_text(text, target)[i], spec_chunk_text(text, target)[j]]
            0 <= i && j == i + 1 && j < spec_chunk_text(text, target).len()
            ==> utf8_len(spec_chunk_text(text, target)[i]) + 1 + utf8_len(spec_chunk_text(text, target)[j]) > target,
{
    let init = ChunkState { chunks: Seq::empty(), cur: Seq::empty() };
    lemma_single_paragraph(text, target);
    let p = trim(text);
    if p.len() == 0 {
        assert(p =~= Seq::<char>::empty());
        lemma_utf8_len_empty();
    }
    assert(make_room(init, p, 2, target) == init);
    assert(flush_chunk(init) == init);
    let st = add_lines(init, split_on(p, '\n'), target);
    assert(add_paragraph(init, text, target) == st);
    assert(lines_packed(init, target));
    lemma_add_lines_packed(init, split_on(p, '\n'), target);
    let fin = flush_chunk(st);
    if st.cur.len() > 0 {
        lemma_packed_push(st.chunks, st.cur, 1, target);
    }
    assert(packed_tight(fin.chunks, 1, target));
    let r = spec_chunk_text(text, target);
    if fin.chunks.len() == 0 && p.len() > 0 {
        assert(r == seq![p]);
    } else {
        assert(r == fin.chunks);
    }
    assert(packed_tight(r, 1, target));
}

/// A single paragraph that fits in the target is one chunk: the trimmed
/// text.
pub proof fn lemma_chunk_small_paragraph(text: Seq<char>, target: nat)
    requires
        no_blank_line(text),
        trim(text).len() > 0,
        utf8_len(trim(text)) <= target,
    ensures
        spec_chunk_text(text, target) == seq![trim(text)],
{
    let init = ChunkState { chunks: Seq::empty(), cur: Seq::empty() };
    lemma_single_paragraph(text, target);
    let p = trim(text);
    assert(make_room(init, p, 2, target) == init);
    assert(add_paragraph(init, text, target) == ChunkState { chunks: Seq::empty(), cur: p });
    assert(Seq::<Seq<char>>::empty().push(p) =~= seq![p]);
}

proof fn lemma_add_paragraph_packed(st: ChunkState, raw: Seq<char>, target: nat)
    requires
        paras_packed(st, target),
        utf8_len(trim(raw)) <= target,
    ensures
        paras_packed(add_paragraph(st, raw, target), target),
{
    let p = trim(raw);
    if p.len() > 0 {
        let r = add_paragraph(st, raw, target);
        if st.cur.len() > 0 && utf8_len(st.cur) + utf8_len(p) + 2 > target {
            lemma_packed_push(st.chunks, st.cur, 2, target);
            assert(r.chunks == st.chunks.push(st.cur));
            assert(r.cur == p);
            assert(r.chunks.last() == st.cur);
        } else if st.cur.len() > 0 {
            let nl = seq!['\n', '\n'];
            lemma_utf8_len_concat(st.cur + nl, p);
            lemma_utf8_len_concat(st.cur, nl);
            lemma_utf8_len_concat(seq!['\n'], seq!['\n']);
            assert(seq!['\n'] + seq!['\n'] =~= nl);
            lemma_utf8_len_one('\n');
            assert(r.cur == st.cur + nl + p);
            assert(utf8_len(r.cur) >= utf8_len(st.cur));
            assert(r.cur.len() > 0);
        } else {
            assert(r.chunks == st.chunks);
        }
    }
}

proof fn lemma_add_paragraphs_packed(st: ChunkState, paras: Seq<Seq<char>>, target: nat)
    requires
        paras_packed(st, target),
        forall|i: int| 0 <= i < paras.len() ==> utf8_len(trim(#[trigger] paras[i])) <= target,
    ensures
        paras_packed(add_paragraphs(st, paras, target), target),
    decreases paras.len(),
{
    if paras.len() > 0 {
        let rest = paras.drop_last();
        assert forall|i: int| 0 <= i < rest.len() implies utf8_len(trim(#[trigger] rest[i])) <= target by {
            assert(rest[i] == paras[i]);
        }
        lemma_add_paragraphs_packed(st, rest, target);
        assert(paras.last() == paras[paras.len() - 1]);
        lemma_add_paragraph_packed(add_paragraphs(st, rest, target), paras.last(), target);
    }
}

/// When every paragraph fits in the target, paragraphs are packed
/// greedily: a chunk is closed only when the next paragraph would not fit
/// after it, so no two neighbouring chunks would fit in the target joined
/// by a blank line.
pub proof fn lemma_chunk_paragraphs_packed(text: Seq<char>, target: nat)
    requires
        forall|i: int| 0 <= i < split_paragraphs(text).len()
            ==> utf8_len(trim(#[trigger] split_paragraphs(text)[i])) <= target,
    ensures
        forall|i: int, j: int| #![trigger spec_chunk_text(text, target)[i], spec_chunk_text(text, target)[j]]
            0 <= i && j == i + 1 && j < spec_chunk_text(text, target).len()
            ==> utf8_len(spec_chunk_text(text, target)[i]) + 2 + utf8_len(spec_chunk_text(text, target)[j]) > target,
{
    let init = ChunkState { chunks: Seq::empty(), cur: Seq::empty() };
    assert(paras_packed(init, target));
    lemma_add_paragraphs_packed(init, split_paragraphs(text), target);
    let st = add_paragraphs(init, split_paragraphs(text), target);
    let fin = flush_chunk(st);
    if st.cur.len() > 0 {
        lemma_packed_push(st.chunks, st.cur, 2, target);
    }
    assert(packed_tight(fin.chunks, 2, target));
    let r = spec_chunk_text(text, target);
    if fin.chunks.len() == 0 && trim(text).len() > 0 {
        assert(r == seq![trim(text)]);
    } else {
        assert(r == fin.chunks);
    }
    assert(packed_tight(r, 2, target));
}

} // verus!
