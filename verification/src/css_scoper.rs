//! Scoped CSS transformer for Domius components.
//!
//! Each component gets a unique `data-domius` attribute. This module
//! generates a short deterministic hash from (path, content) and rewrites
//! CSS selectors so that every rule only applies inside the component.
//!
//! **Input:**
//! ```css
//! .btn { color: red; }
//! ```
//!
//! **Output** (with hash `"a3f2"`):
//! ```css
//! [data-domius="a3f2"] .btn { color: red; }
//! ```
use vstd::prelude::*;
use crate::text::{
    chars_of, extend_chars, join, join_chars, push_char, push_str, split, split_chars, string_of, trim, trim_chars, views,
};

verus! {

// ---------------------------------------------------------------------------
// Hash generation (FNV-1a, 64 bit, truncated to 32 bits)
// ---------------------------------------------------------------------------

/// FNV-1a 64-bit offset basis.
pub const FNV_OFFSET: u64 = 14695981039346656037u64;

/// FNV-1a 64-bit prime.
pub const FNV_PRIME: u64 = 1099511628211u64;

/// One FNV-1a round: xor the byte in, then multiply (wrapping) by the prime.
pub open spec fn fnv_step(hash: u64, byte: u8) -> u64 {
    vstd::wrapping::u64_specs::wrapping_mul(hash ^ (byte as u64), FNV_PRIME)
}

/// FNV-1a over `bytes`, starting from `hash`.
pub open spec fn fnv(hash: u64, bytes: Seq<u8>) -> u64
    decreases bytes.len(),
{
    if bytes.len() == 0 {
        hash
    } else {
        fnv_step(fnv(hash, bytes.drop_last()), bytes.last())
    }
}

/// Lower-case hexadecimal digit for a value below 16.
pub open spec fn hex_digit(n: u32) -> char {
    if n < 10 {
        ((n + 48) as u8) as char
    } else {
        ((n + 87) as u8) as char
    }
}

/// `format!("{:08x}", value)`: eight lower-case hex digits, most significant first.
pub open spec fn hex8(value: u32) -> Seq<char> {
    Seq::new(8, |k: int| hex_digit((value >> ((28 - 4 * k) as u32)) & 0xf))
}

/// The bytes hashed for a component: its path, a `|`, then its content (UTF-8).
pub open spec fn hashed_bytes(path: Seq<char>, content: Seq<char>) -> Seq<u8> {
    vstd::utf8::encode_utf8(path) + seq![124u8] + vstd::utf8::encode_utf8(content)
}

/// The scope hash of a component: the first 8 of the 16 hex digits of its
/// FNV-1a hash, that is its high 32 bits in hex.
pub open spec fn scope_hash_spec(path: Seq<char>, content: Seq<char>) -> Seq<char> {
    hex8((fnv(FNV_OFFSET, hashed_bytes(path, content)) >> 32u64) as u32)
}

/// A lower-case ASCII hexadecimal digit.
pub open spec fn is_lower_hex(c: char) -> bool {
    ('0' <= c && c <= '9') || ('a' <= c && c <= 'f')
}

/// Every character of `hex8(value)` is a lower-case hex digit.
pub proof fn lemma_hex8_digits(value: u32)
    ensures
        hex8(value).len() == 8,
        forall|k: int| 0 <= k < 8 ==> is_lower_hex(#[trigger] hex8(value)[k]),
{
    assert forall|k: int| 0 <= k < 8 implies is_lower_hex(#[trigger] hex8(value)[k]) by {
        let s: u32 = (28 - 4 * k) as u32;
        let n: u32 = (value >> s) & 0xf;
        assert(n < 16) by (bit_vector)
            requires
                n == (value >> s) & 0xf,
        ;
    }
}

/// The scope hash depends on the path and content alone.
pub proof fn lemma_scope_hash_deterministic(
    path1: Seq<char>,
    content1: Seq<char>,
    path2: Seq<char>,
    content2: Seq<char>,
)
    requires
        path1 == path2,
        content1 == content2,
    ensures
        scope_hash_spec(path1, content1) == scope_hash_spec(path2, content2),
{
}

fn fnv_extend(hash: u64, bytes: &[u8]) -> (r: u64)
    ensures
        r == fnv_over(hash, bytes@),
{
    let mut h = hash;
    let mut i: usize = 0;
    while i < bytes.len()
        invariant
            i <= bytes.len(),
            h == fnv_over(hash, bytes@.take(i as int)),
        decreases bytes.len() - i,
    {
        assert(bytes@.take(i + 1).drop_last() == bytes@.take(i as int));
        h = (h ^ (bytes[i] as u64)).wrapping_mul(FNV_PRIME);
        i = i + 1;
    }
    assert(bytes@.take(bytes.len() as int) == bytes@);
    h
}

/// FNV-1a continued from an intermediate hash (same recursion as `fnv`).
pub open spec fn fnv_over(hash: u64, bytes: Seq<u8>) -> u64 {
    fnv(hash, bytes)
}

/// `fnv` over a concatenation is `fnv` over the second part, started from
/// the hash of the first part.
pub proof fn lemma_fnv_append(hash: u64, a: Seq<u8>, b: Seq<u8>)
    ensures
        fnv(hash, a + b) == fnv(fnv(hash, a), b),
    decreases b.len(),
{
    if b.len() == 0 {
        assert(a + b == a);
    } else {
        lemma_fnv_append(hash, a, b.drop_last());
        assert((a + b).drop_last() == a + b.drop_last());
        assert((a + b).last() == b.last());
    }
}

fn hex8_string(value: u32) -> (s: String)
    ensures
        s@ == hex8(value),
{
    let mut s = String::new();
    let mut k: u32 = 0;
    while k < 8
        invariant
            k <= 8,
            s@ == hex8(value).take(k as int),
        decreases 8 - k,
    {
        let shift: u32 = 28 - 4 * k;
        let nib: u32 = (value >> shift) & 0xf;
        assert(nib < 16) by (bit_vector)
            requires
                nib == (value >> shift) & 0xf,
        ;
        let c: char = if nib < 10 {
            ((nib + 48) as u8) as char
        } else {
            ((nib + 87) as u8) as char
        };
        push_char(&mut s, c);
        assert(hex8(value).take(k + 1) == hex8(value).take(k as int).push(c));
        k = k + 1;
    }
    assert(hex8(value).take(8) == hex8(value));
    s
}

/// Generate a short deterministic hex hash from `path` and `content`.
///
/// Uses FNV-1a 64-bit over the UTF-8 bytes of `path`, a `|` and `content`,
/// and returns the first 8 of its 16 lower-case hex digits (its high 32 bits).
pub fn generate_scope_hash(path: &str, content: &str) -> (hash: String)
    ensures
        hash@ == scope_hash_spec(path@, content@),
        hash@.len() == 8,
        forall|k: int| 0 <= k < 8 ==> is_lower_hex(#[trigger] hash@[k]),
{
    let pb = path.as_bytes();
    let cb = content.as_bytes();
    let h1 = fnv_extend(FNV_OFFSET, pb);
    let sep: [u8; 1] = [124u8];
    let h2 = fnv_extend(h1, sep.as_slice());
    let h3 = fnv_extend(h2, cb);
    proof {
        let a = vstd::utf8::encode_utf8(path@);
        let b = seq![124u8];
        let c = vstd::utf8::encode_utf8(content@);
        assert(sep@ == b);
        lemma_fnv_append(FNV_OFFSET, a, b);
        lemma_fnv_append(FNV_OFFSET, a + b, c);
    }
    let high: u32 = (h3 >> 32u64) as u32;
    proof {
        lemma_hex8_digits(high);
    }
    hex8_string(high)
}

// ---------------------------------------------------------------------------
// CSS scoping
// ---------------------------------------------------------------------------

/// The attribute selector that scopes rules to a component.
pub open spec fn scope_attr_spec(hash: Seq<char>) -> Seq<char> {
    "[data-domius=\""@ + hash + "\"]"@
}

/// Scope attribute selector inserted before each rule's selectors.
pub fn scope_attr(hash: &str) -> (attr: String)
    ensures
        attr@ == scope_attr_spec(hash@),
{
    let mut s = String::new();
    push_str(&mut s, "[data-domius=\"");
    push_str(&mut s, hash);
    push_str(&mut s, "\"]");
    s
}

/// The scoped form of each non-blank selector in `parts`: `attr`, a space,
/// and the trimmed selector.
pub open spec fn scoped_selectors(parts: Seq<Seq<char>>, attr: Seq<char>) -> Seq<Seq<char>>
    decreases parts.len(),
{
    if parts.len() == 0 {
        Seq::<Seq<char>>::empty()
    } else {
        let prev = scoped_selectors(parts.drop_last(), attr);
        let t = trim(parts.last());
        if t.len() == 0 {
            prev
        } else {
            prev.push(attr + seq![' '] + t)
        }
    }
}

/// `.a, .b` becomes `attr .a, attr .b`; blank selectors are dropped.
pub open spec fn scope_selector_list_spec(selectors: Seq<char>, attr: Seq<char>) -> Seq<char> {
    join(scoped_selectors(split(selectors, seq![',']), attr), seq![',', ' '])
}

/// Prefix every selector in a comma-separated selector list with `attr`.
fn scope_selector_list(selectors: &Vec<char>, attr: &Vec<char>) -> (r: Vec<char>)
    ensures
        r@ == scope_selector_list_spec(selectors@, attr@),
{
    let mut seps: Vec<char> = Vec::new();
    seps.push(',');
    assert(seps@ == seq![',']);
    let parts = split_chars(selectors, &seps);
    let mut scoped: Vec<Vec<char>> = Vec::new();
    let mut i: usize = 0;
    while i < parts.len()
        invariant
            i <= parts.len(),
            views(scoped@) == scoped_selectors(views(parts@).take(i as int), attr@),
        decreases parts.len() - i,
    {
        let ghost before = views(scoped@);
        assert(views(parts@).take(i + 1).drop_last() == views(parts@).take(i as int));
        assert(views(parts@).take(i + 1).last() == parts@[i as int]@);
        let t = trim_chars(&parts[i]);
        assert(scoped_selectors(views(parts@).take(i + 1), attr@) == (if t@.len() == 0 {
            before
        } else {
            before.push(attr@ + seq![' '] + t@)
        }));
        if t.len() > 0 {
            let mut item: Vec<char> = Vec::new();
            extend_chars(&mut item, attr);
            item.push(' ');
            extend_chars(&mut item, &t);
            let ghost iv = item@;
            assert(iv =~= attr@ + seq![' '] + t@);
            scoped.push(item);
            assert(views(scoped@) =~= before.push(iv));
        }
        i = i + 1;
    }
    assert(views(parts@).take(parts.len() as int) == views(parts@));
    let mut sep: Vec<char> = Vec::new();
    sep.push(',');
    sep.push(' ');
    assert(sep@ == seq![',', ' ']);
    join_chars(&scoped, &sep)
}

/// Scanner state while reading a style sheet.
pub struct ScanState {
    /// Brace nesting depth.
    pub depth: nat,
    /// Text collected at depth 0 since the last rule (the next rule's selectors).
    pub selector: Seq<char>,
    /// Whether the pending rule is an at-rule (`@media`, `@keyframes`, ...).
    pub in_at: bool,
    /// Whether the scanner is inside a `/* ... */` comment.
    pub in_comment: bool,
    /// Output produced so far.
    pub out: Seq<char>,
}

/// The state before the first character.
pub open spec fn scan_start() -> ScanState {
    ScanState {
        depth: 0,
        selector: Seq::<char>::empty(),
        in_at: false,
        in_comment: false,
        out: Seq::<char>::empty(),
    }
}

/// Number of characters consumed by the step at `i`.
pub open spec fn step_len(cs: Seq<char>, i: int, st: ScanState) -> int {
    if st.in_comment {
        if cs[i] == '*' && i + 1 < cs.len() && cs[i + 1] == '/' {
            2
        } else {
            1
        }
    } else if cs[i] == '/' && i + 1 < cs.len() && cs[i + 1] == '*' {
        2
    } else {
        1
    }
}

/// The scanner state after the step at `i`.
pub open spec fn step(cs: Seq<char>, i: int, st: ScanState, attr: Seq<char>) -> ScanState {
    let c = cs[i];
    if st.in_comment {
        if c == '*' && i + 1 < cs.len() && cs[i + 1] == '/' {
            ScanState { in_comment: false, ..st }
        } else {
            st
        }
    } else if c == '/' && i + 1 < cs.len() && cs[i + 1] == '*' {
        ScanState { in_comment: true, ..st }
    } else if c == '@' && st.depth == 0 {
        ScanState { in_at: true, selector: st.selector.push('@'), ..st }
    } else if c == '{' {
        if st.depth == 0 {
            if st.in_at {
                ScanState {
                    depth: 1,
                    selector: Seq::<char>::empty(),
                    out: st.out + st.selector + seq!['{'],
                    ..st
                }
            } else {
                ScanState {
                    depth: 1,
                    selector: Seq::<char>::empty(),
                    out: st.out + scope_selector_list_spec(trim(st.selector), attr) + seq![' ', '{'],
                    ..st
                }
            }
        } else {
            ScanState { depth: st.depth + 1, out: st.out.push('{'), ..st }
        }
    } else if c == '}' {
        let d: nat = if st.depth > 0 { (st.depth - 1) as nat } else { 0 };
        if d == 0 {
            ScanState { depth: d, in_at: false, out: st.out.push('}').push('\n'), ..st }
        } else {
            ScanState { depth: d, out: st.out.push('}'), ..st }
        }
    } else if st.depth == 0 {
        ScanState { selector: st.selector.push(c), ..st }
    } else {
        ScanState { out: st.out.push(c), ..st }
    }
}

/// Run the scanner from position `i` in state `st` to the end of `cs`.
pub open spec fn scan(cs: Seq<char>, i: int, st: ScanState, attr: Seq<char>) -> ScanState
    decreases cs.len() - i,
{
    if i < 0 || i >= cs.len() {
        st
    } else {
        scan(cs, i + step_len(cs, i, st), step(cs, i, st, attr), attr)
    }
}

/// A comment closes (`*/`) at position `q` of `cs`.
pub open spec fn closes_at(cs: Seq<char>, q: int) -> bool {
    0 <= q && q + 1 < cs.len() && cs[q] == '*' && cs[q + 1] == '/'
}

/// Inside a comment, the scanner moves past every character up to the
/// comment's end without changing anything but that it is in a comment.
proof fn lemma_inside_comment(cs: Seq<char>, p: int, k: int, st: ScanState, attr: Seq<char>)
    requires
        st.in_comment,
        0 <= p <= k,
        k + 1 < cs.len(),
        cs[k] == '*',
        cs[k + 1] == '/',
        forall|q: int| p <= q < k ==> !#[trigger] closes_at(cs, q),
    ensures
        scan(cs, p, st, attr) == scan(cs, k + 2, ScanState { in_comment: false, ..st }, attr),
    decreases k - p,
{
    if p < k {
        assert(!closes_at(cs, p));
        lemma_inside_comment(cs, p + 1, k, st, attr);
    }
}

/// A `/* ... */` comment leaves no trace, at any brace depth: scanning from
/// its start gives what scanning from just after its end gives, in the same
/// state.
pub proof fn lemma_comment_leaves_no_trace(cs: Seq<char>, i: int, k: int, st: ScanState, attr: Seq<char>)
    requires
        !st.in_comment,
        0 <= i,
        i + 2 <= k,
        k + 1 < cs.len(),
        cs[i] == '/',
        cs[i + 1] == '*',
        cs[k] == '*',
        cs[k + 1] == '/',
        forall|q: int| i + 2 <= q < k ==> !#[trigger] closes_at(cs, q),
    ensures
        scan(cs, i, st, attr) == scan(cs, k + 2, st, attr),
{
    let inside = ScanState { in_comment: true, ..st };
    assert(step(cs, i, st, attr) == inside);
    assert(step_len(cs, i, st) == 2);
    lemma_inside_comment(cs, i + 2, k, inside, attr);
    assert(ScanState { in_comment: false, ..inside } == st);
}

/// A line without one trailing carriage return.
pub open spec fn strip_cr(line: Seq<char>) -> Seq<char> {
    if line.len() > 0 && line.last() == '\r' {
        line.drop_last()
    } else {
        line
    }
}

/// Line `i` of a text split at `\n`, as `str::lines` yields it: a line
/// followed by `\n` loses one trailing `\r`.
pub open spec fn line_at(parts: Seq<Seq<char>>, i: int) -> Seq<char> {
    if i + 1 < parts.len() {
        strip_cr(parts[i])
    } else {
        parts[i]
    }
}

/// The non-blank lines among the first `n` lines.
pub open spec fn nonblank_lines(parts: Seq<Seq<char>>, n: int) -> Seq<Seq<char>>
    decreases n,
{
    if n <= 0 {
        Seq::<Seq<char>>::empty()
    } else {
        let prev = nonblank_lines(parts, n - 1);
        let l = line_at(parts, n - 1);
        if trim(l).len() > 0 {
            prev.push(l)
        } else {
            prev
        }
    }
}

/// `text.lines().filter(|l| !l.trim().is_empty()).collect::<Vec<_>>().join("\n")`.
pub open spec fn clean_lines(text: Seq<char>) -> Seq<char> {
    let parts = split(text, seq!['\n']);
    join(nonblank_lines(parts, parts.len() as int), seq!['\n'])
}

/// The result of scoping `css` with `hash`.
pub open spec fn scope_css_spec(css: Seq<char>, hash: Seq<char>) -> Seq<char> {
    clean_lines(scan(css, 0, scan_start(), scope_attr_spec(hash)).out)
}

fn clean_output(out: &Vec<char>) -> (r: Vec<char>)
    ensures
        r@ == clean_lines(out@),
{
    let mut seps: Vec<char> = Vec::new();
    seps.push('\n');
    assert(seps@ == seq!['\n']);
    let parts = split_chars(out, &seps);
    let ghost pv = views(parts@);
    let mut kept: Vec<Vec<char>> = Vec::new();
    let mut i: usize = 0;
    while i < parts.len()
        invariant
            i <= parts.len(),
            pv == views(parts@),
            pv == split(out@, seq!['\n']),
            views(kept@) == nonblank_lines(pv, i as int),
        decreases parts.len() - i,
    {
        let ghost before = views(kept@);
        let mut line: Vec<char> = Vec::new();
        extend_chars(&mut line, &parts[i]);
        assert(line@ == pv[i as int]);
        if i + 1 < parts.len() && line.len() > 0 && line[line.len() - 1] == '\r' {
            line.pop();
        }
        assert(line@ == line_at(pv, i as int));
        let t = trim_chars(&line);
        if t.len() > 0 {
            let ghost lv = line@;
            kept.push(line);
            assert(views(kept@) =~= before.push(lv));
        }
        i = i + 1;
    }
    let mut sep: Vec<char> = Vec::new();
    sep.push('\n');
    assert(sep@ == seq!['\n']);
    join_chars(&kept, &sep)
}

/// Transform `css` so every rule is scoped to `scope_hash`.
///
/// - every selector of a comma-separated list gets the scope attribute;
/// - `@media` / `@keyframes` blocks are passed through unchanged;
/// - `/* ... */` comments are dropped;
/// - blank lines are removed from the result.
pub fn scope_css(css: &str, scope_hash: &str) -> (scoped: String)
    ensures
        scoped@ == scope_css_spec(css@, scope_hash@),
{
    let attr_s = scope_attr(scope_hash);
    let attr = chars_of(attr_s.as_str());
    let cs = chars_of(css);
    let ghost a = attr@;
    let n = cs.len();
    let mut i: usize = 0;
    let mut depth: usize = 0;
    let mut selector: Vec<char> = Vec::new();
    let mut in_at = false;
    let mut in_comment = false;
    let mut out: Vec<char> = Vec::new();
    while i < n
        invariant
            i <= n,
            n == cs.len(),
            a == attr@,
            depth <= i,
            scan(cs@, 0, scan_start(), a) == scan(
                cs@,
                i as int,
                ScanState {
                    depth: depth as nat,
                    selector: selector@,
                    in_at,
                    in_comment,
                    out: out@,
                },
                a,
            ),
        decreases n - i,
    {
        let ghost st = ScanState {
            depth: depth as nat,
            selector: selector@,
            in_at,
            in_comment,
            out: out@,
        };
        let ghost i0 = i as int;
        let c = cs[i];
        if in_comment {
            if c == '*' && i + 1 < n && cs[i + 1] == '/' {
                in_comment = false;
                i = i + 2;
            } else {
                i = i + 1;
            }
        } else if c == '/' && i + 1 < n && cs[i + 1] == '*' {
            in_comment = true;
            i = i + 2;
        } else if c == '@' && depth == 0 {
            in_at = true;
            selector.push('@');
            i = i + 1;
        } else if c == '{' {
            if depth == 0 {
                if in_at {
                    extend_chars(&mut out, &selector);
                    out.push('{');
                } else {
                    let t = trim_chars(&selector);
                    let scoped = scope_selector_list(&t, &attr);
                    extend_chars(&mut out, &scoped);
                    out.push(' ');
                    out.push('{');
                }
                selector = Vec::new();
            } else {
                out.push('{');
            }
            depth = depth + 1;
            i = i + 1;
        } else if c == '}' {
            if depth > 0 {
                depth = depth - 1;
            }
            out.push('}');
            if depth == 0 {
                in_at = false;
                out.push('\n');
            }
            i = i + 1;
        } else {
            if depth == 0 {
                selector.push(c);
            } else {
                out.push(c);
            }
            i = i + 1;
        }
        assert(out@ =~= step(cs@, i0, st, a).out);
        assert(selector@ =~= step(cs@, i0, st, a).selector);
        assert(ScanState {
            depth: depth as nat,
            selector: selector@,
            in_at,
            in_comment,
            out: out@,
        } == step(cs@, i0, st, a));
        assert(i == i0 + step_len(cs@, i0, st));
    }
    let cleaned = clean_output(&out);
    string_of(&cleaned)
}

} // verus!
