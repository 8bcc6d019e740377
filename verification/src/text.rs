//! Verified JSON text primitives.
//!
//! Everything here is the library's own text logic: trimming, the JSON
//! string-escape grammar, decimal numbers, and the one-field-object framing
//! used for outcome values.  No outside code is involved.

use vstd::prelude::*;

verus! {

// ---------------------------------------------------------------------------
// trimming
// ---------------------------------------------------------------------------

/// The whitespace characters that JSON text may carry around a document.
pub open spec fn json_ws(c: char) -> bool {
    c == ' ' || c == '\t' || c == '\n' || c == '\r'
}

/// The NUL character, trimmed from the ends of incoming text.
pub open spec fn is_nul(c: char) -> bool {
    c as u32 == 0
}

/// The characters Unicode marks as whitespace; incoming text is cleaned of
/// these at both ends, like the standard library trims them.
pub open spec fn unicode_ws(c: char) -> bool {
    json_ws(c) || c as u32 == 0x0B || c as u32 == 0x0C || c as u32 == 0x85 || c as u32 == 0xA0
        || c as u32 == 0x1680 || (0x2000 <= c as u32 && c as u32 <= 0x200A) || c as u32 == 0x2028
        || c as u32 == 0x2029 || c as u32 == 0x202F || c as u32 == 0x205F || c as u32 == 0x3000
}

pub open spec fn ws_pred() -> spec_fn(char) -> bool {
    |c: char| json_ws(c)
}

pub open spec fn nul_pred() -> spec_fn(char) -> bool {
    |c: char| is_nul(c)
}

pub open spec fn unicode_ws_pred() -> spec_fn(char) -> bool {
    |c: char| unicode_ws(c)
}

/// How many characters at the front of `s` satisfy `p`.
pub open spec fn count_leading(s: Seq<char>, p: spec_fn(char) -> bool) -> int
    decreases s.len(),
{
    if s.len() == 0 || !p(s[0]) {
        0
    } else {
        1 + count_leading(s.drop_first(), p)
    }
}

/// How many characters at the back of `s` satisfy `p`.
pub open spec fn count_trailing(s: Seq<char>, p: spec_fn(char) -> bool) -> int
    decreases s.len(),
{
    if s.len() == 0 || !p(s.last()) {
        0
    } else {
        1 + count_trailing(s.drop_last(), p)
    }
}

/// `s` with the longest `p`-prefix and `p`-suffix removed.
pub open spec fn trim_spec(s: Seq<char>, p: spec_fn(char) -> bool) -> Seq<char> {
    let t = s.skip(count_leading(s, p));
    t.take(t.len() - count_trailing(t, p))
}

/// The cleaning applied to incoming JSON text: Unicode whitespace stripped
/// from both ends, then NUL characters stripped from both ends.
pub open spec fn cleaned(s: Seq<char>) -> Seq<char> {
    trim_spec(trim_spec(s, unicode_ws_pred()), nul_pred())
}

proof fn lemma_count_leading_unique(s: Seq<char>, p: spec_fn(char) -> bool, i: int)
    requires
        0 <= i <= s.len(),
        forall|k: int| 0 <= k < i ==> p(#[trigger] s[k]),
        i == s.len() || !p(s[i]),
    ensures
        count_leading(s, p) == i,
    decreases s.len(),
{
    if s.len() == 0 {
    } else if i == 0 {
    } else {
        assert(p(s[0]));
        let t = s.drop_first();
        assert(forall|k: int| 0 <= k < i - 1 ==> p(#[trigger] t[k]));
        lemma_count_leading_unique(t, p, i - 1);
    }
}

proof fn lemma_count_trailing_unique(s: Seq<char>, p: spec_fn(char) -> bool, j: int)
    requires
        0 <= j <= s.len(),
        forall|k: int| j <= k < s.len() ==> p(#[trigger] s[k]),
        j == 0 || !p(s[j - 1]),
    ensures
        count_trailing(s, p) == s.len() - j,
    decreases s.len(),
{
    if s.len() == 0 {
    } else if j == s.len() {
    } else {
        assert(p(s.last()));
        let t = s.drop_last();
        assert(forall|k: int| j <= k < t.len() ==> p(#[trigger] t[k]));
        lemma_count_trailing_unique(t, p, j);
    }
}

fn is_ws_exec(c: char) -> (r: bool)
    ensures
        r == json_ws(c),
{
    c == ' ' || c == '\t' || c == '\n' || c == '\r'
}

fn is_nul_exec(c: char) -> (r: bool)
    ensures
        r == is_nul(c),
{
    c as u32 == 0
}

fn is_unicode_ws_exec(c: char) -> (r: bool)
    ensures
        r == unicode_ws(c),
{
    let cv = c as u32;
    is_ws_exec(c) || cv == 0x0B || cv == 0x0C || cv == 0x85 || cv == 0xA0 || cv == 0x1680
        || (0x2000 <= cv && cv <= 0x200A) || cv == 0x2028 || cv == 0x2029 || cv == 0x202F
        || cv == 0x205F || cv == 0x3000
}

/// `s` with JSON whitespace removed from both ends.
pub fn trim_ws(s: &str) -> (r: &str)
    ensures
        r@ == trim_spec(s@, ws_pred()),
{
    let n = s.unicode_len();
    let mut i: usize = 0;
    while i < n && is_ws_exec(s.get_char(i))
        invariant
            0 <= i <= n,
            n == s@.len(),
            forall|k: int| 0 <= k < i ==> ws_pred()(#[trigger] s@[k]),
        decreases n - i,
    {
        i = i + 1;
    }
    proof {
        lemma_count_leading_unique(s@, ws_pred(), i as int);
    }
    let mut j: usize = n;
    while j > i && is_ws_exec(s.get_char(j - 1))
        invariant
            i <= j <= n,
            n == s@.len(),
            forall|k: int| j <= k < n ==> ws_pred()(#[trigger] s@[k]),
        decreases j,
    {
        j = j - 1;
    }
    proof {
        let t = s@.skip(i as int);
        assert(forall|k: int| j - i <= k < t.len() ==> ws_pred()(#[trigger] t[k]));
        if j > i {
            assert(t[j - i - 1] == s@[j as int - 1]);
        }
        lemma_count_trailing_unique(t, ws_pred(), j - i);
        assert(trim_spec(s@, ws_pred()) =~= s@.subrange(i as int, j as int));
    }
    s.substring_char(i, j)
}

/// `s` with Unicode whitespace removed from both ends.
pub fn trim_unicode_ws(s: &str) -> (r: &str)
    ensures
        r@ == trim_spec(s@, unicode_ws_pred()),
{
    let n = s.unicode_len();
    let mut i: usize = 0;
    while i < n && is_unicode_ws_exec(s.get_char(i))
        invariant
            0 <= i <= n,
            n == s@.len(),
            forall|k: int| 0 <= k < i ==> unicode_ws_pred()(#[trigger] s@[k]),
        decreases n - i,
    {
        i = i + 1;
    }
    proof {
        lemma_count_leading_unique(s@, unicode_ws_pred(), i as int);
    }
    let mut j: usize = n;
    while j > i && is_unicode_ws_exec(s.get_char(j - 1))
        invariant
            i <= j <= n,
            n == s@.len(),
            forall|k: int| j <= k < n ==> unicode_ws_pred()(#[trigger] s@[k]),
        decreases j,
    {
        j = j - 1;
    }
    proof {
        let t = s@.skip(i as int);
        assert(forall|k: int| j - i <= k < t.len() ==> unicode_ws_pred()(#[trigger] t[k]));
        if j > i {
            assert(t[j - i - 1] == s@[j as int - 1]);
        }
        lemma_count_trailing_unique(t, unicode_ws_pred(), j - i);
        assert(trim_spec(s@, unicode_ws_pred()) =~= s@.subrange(i as int, j as int));
    }
    s.substring_char(i, j)
}

/// `s` with NUL characters removed from both ends.
pub fn trim_nul(s: &str) -> (r: &str)
    ensures
        r@ == trim_spec(s@, nul_pred()),
{
    let n = s.unicode_len();
    let mut i: usize = 0;
    while i < n && is_nul_exec(s.get_char(i))
        invariant
            0 <= i <= n,
            n == s@.len(),
            forall|k: int| 0 <= k < i ==> nul_pred()(#[trigger] s@[k]),
        decreases n - i,
    {
        i = i + 1;
    }
    proof {
        lemma_count_leading_unique(s@, nul_pred(), i as int);
    }
    let mut j: usize = n;
    while j > i && is_nul_exec(s.get_char(j - 1))
        invariant
            i <= j <= n,
            n == s@.len(),
            forall|k: int| j <= k < n ==> nul_pred()(#[trigger] s@[k]),
        decreases j,
    {
        j = j - 1;
    }
    proof {
        let t = s@.skip(i as int);
        assert(forall|k: int| j - i <= k < t.len() ==> nul_pred()(#[trigger] t[k]));
        if j > i {
            assert(t[j - i - 1] == s@[j as int - 1]);
        }
        lemma_count_trailing_unique(t, nul_pred(), j - i);
        assert(trim_spec(s@, nul_pred()) =~= s@.subrange(i as int, j as int));
    }
    s.substring_char(i, j)
}

/// The cleaning applied to incoming JSON text.
pub fn clean_text(s: &str) -> (r: &str)
    ensures
        r@ == cleaned(s@),
{
    trim_nul(trim_unicode_ws(s))
}

// ---------------------------------------------------------------------------
// small string building blocks
// ---------------------------------------------------------------------------

/// Relies on `String::push`: appends exactly the one character.
#[verifier::external_body]
pub fn push_char(s: &mut String, c: char)
    ensures
        final(s)@ == old(s)@.push(c),
{
    s.push(c);
}

/// Character-wise string equality.
pub fn str_eq(a: &str, b: &str) -> (r: bool)
    ensures
        r == (a@ == b@),
{
    let n = a.unicode_len();
    if n != b.unicode_len() {
        return false;
    }
    let mut i: usize = 0;
    while i < n
        invariant
            0 <= i <= n,
            n == a@.len(),
            n == b@.len(),
            forall|k: int| 0 <= k < i ==> a@[k] == b@[k],
        decreases n - i,
    {
        if a.get_char(i) != b.get_char(i) {
            return false;
        }
        i = i + 1;
    }
    proof {
        assert(a@ =~= b@);
    }
    true
}

// ---------------------------------------------------------------------------
// decimal numbers
// ---------------------------------------------------------------------------

/// The character for one decimal digit.
pub open spec fn digit_char(d: int) -> char {
    ((48 + d) as u8) as char
}

/// The decimal spelling of a number, most significant digit first.
pub open spec fn dec_digits(n: nat) -> Seq<char>
    decreases n,
{
    if n < 10 {
        seq![digit_char(n as int)]
    } else {
        dec_digits(n / 10) + seq![digit_char((n % 10) as int)]
    }
}

pub open spec fn is_digit(c: char) -> bool {
    48 <= c as u32 <= 57
}

pub open spec fn digit_val(c: char) -> nat {
    (c as u32 - 48) as nat
}

/// The value of a digit string, read in base ten.
pub open spec fn dec_val(s: Seq<char>) -> nat
    decreases s.len(),
{
    if s.len() == 0 {
        0
    } else {
        dec_val(s.drop_last()) * 10 + digit_val(s.last())
    }
}

/// A JSON document that is exactly one unsigned integer: digits only, and no
/// leading zero unless the number is zero itself.
pub open spec fn valid_unsigned_doc(s: Seq<char>) -> bool {
    &&& s.len() > 0
    &&& forall|k: int| 0 <= k < s.len() ==> is_digit(#[trigger] s[k])
    &&& (s[0] != '0' || s.len() == 1)
}

fn push_decimal(u: u64, out: &mut String)
    ensures
        final(out)@ == old(out)@ + dec_digits(u as nat),
    decreases u,
{
    if u >= 10 {
        push_decimal(u / 10, out);
    }
    let d: u8 = (u % 10) as u8;
    push_char(out, (48 + d) as char);
    proof {
        if u < 10 {
            assert(u as nat % 10 == u as nat);
        }
        assert(final(out)@ =~= old(out)@ + dec_digits(u as nat));
    }
}

fn push_decimal_u128(u: u128, out: &mut String)
    ensures
        final(out)@ == old(out)@ + dec_digits(u as nat),
    decreases u,
{
    if u >= 10 {
        push_decimal_u128(u / 10, out);
    }
    let d: u8 = (u % 10) as u8;
    push_char(out, (48 + d) as char);
    proof {
        if u < 10 {
            assert(u as nat % 10 == u as nat);
        }
        assert(final(out)@ =~= old(out)@ + dec_digits(u as nat));
    }
}

/// The decimal spelling of a 128-bit unsigned number.
pub fn u128_to_dec(u: u128) -> (r: String)
    ensures
        r@ == dec_digits(u as nat),
{
    let mut s = String::new();
    push_decimal_u128(u, &mut s);
    proof {
        assert(s@ =~= dec_digits(u as nat));
    }
    s
}

/// The decimal spelling of an unsigned number.
pub fn u64_to_dec(u: u64) -> (r: String)
    ensures
        r@ == dec_digits(u as nat),
{
    let mut s = String::new();
    push_decimal(u, &mut s);
    proof {
        assert(s@ =~= dec_digits(u as nat));
    }
    s
}

proof fn lemma_dec_val_snoc(s: Seq<char>, i: int)
    requires
        0 <= i < s.len(),
    ensures
        dec_val(s.take(i + 1)) == dec_val(s.take(i)) * 10 + digit_val(s[i]),
{
    assert(s.take(i + 1).drop_last() =~= s.take(i));
    assert(s.take(i + 1).last() == s[i]);
}

proof fn lemma_dec_val_grows(s: Seq<char>, i: int)
    requires
        0 <= i <= s.len(),
    ensures
        dec_val(s.take(i)) <= dec_val(s),
    decreases s.len() - i,
{
    if i == s.len() {
        assert(s.take(i) =~= s);
    } else {
        lemma_dec_val_snoc(s, i);
        lemma_dec_val_grows(s, i + 1);
    }
}

/// Parse a JSON unsigned-integer document.  Succeeds exactly on the digit
/// strings (without a superfluous leading zero) whose value fits.
pub fn parse_dec_u64(s: &str) -> (r: Option<u64>)
    ensures
        r is Some <==> valid_unsigned_doc(s@) && dec_val(s@) <= u64::MAX,
        r matches Some(u) ==> u as nat == dec_val(s@),
{
    let n = s.unicode_len();
    if n == 0 {
        return None;
    }
    if n > 1 && s.get_char(0) == '0' {
        return None;
    }
    let mut acc: u64 = 0;
    let mut i: usize = 0;
    while i < n
        invariant
            0 <= i <= n,
            n == s@.len(),
            forall|k: int| 0 <= k < i ==> is_digit(#[trigger] s@[k]),
            acc as nat == dec_val(s@.take(i as int)),
        decreases n - i,
    {
        let c = s.get_char(i);
        let cv = c as u32;
        if cv < 48 || cv > 57 {
            return None;
        }
        let d: u64 = (cv - 48) as u64;
        proof {
            lemma_dec_val_snoc(s@, i as int);
        }
        if acc > (u64::MAX - d) / 10 {
            proof {
                assert(acc * 10 + d > u64::MAX) by (nonlinear_arith)
                    requires
                        acc > (u64::MAX - d) / 10,
                        d <= 9,
                {}
                lemma_dec_val_grows(s@, i as int + 1);
            }
            return None;
        }
        proof {
            assert(acc * 10 + d <= u64::MAX) by (nonlinear_arith)
                requires
                    acc <= (u64::MAX - d) / 10,
                    d <= 9,
            {}
        }
        acc = acc * 10 + d;
        i = i + 1;
    }
    proof {
        assert(s@.take(n as int) =~= s@);
    }
    Some(acc)
}

// ---------------------------------------------------------------------------
// the JSON string-literal grammar
// ---------------------------------------------------------------------------

/// The character for one lowercase hexadecimal digit.
pub open spec fn hex_digit_char(d: int) -> char {
    if d < 10 {
        ((48 + d) as u8) as char
    } else {
        ((87 + d) as u8) as char
    }
}

pub open spec fn is_hex(c: char) -> bool {
    is_digit(c) || 97 <= c as u32 <= 102 || 65 <= c as u32 <= 70
}

pub open spec fn hex_val(c: char) -> int {
    if is_digit(c) {
        c as u32 - 48
    } else if 97 <= c as u32 <= 102 {
        c as u32 - 87
    } else {
        c as u32 - 55
    }
}

/// Four hexadecimal digits starting at position `k` of `s`.
pub open spec fn is_hex4_at(s: Seq<char>, k: int) -> bool {
    &&& k + 4 <= s.len()
    &&& is_hex(s[k])
    &&& is_hex(s[k + 1])
    &&& is_hex(s[k + 2])
    &&& is_hex(s[k + 3])
}

pub open spec fn hex4_val_at(s: Seq<char>, k: int) -> int {
    hex_val(s[k]) * 4096 + hex_val(s[k + 1]) * 256 + hex_val(s[k + 2]) * 16 + hex_val(s[k + 3])
}

/// How one character is written inside a JSON string literal: the quote and
/// the backslash get a backslash escape, the common control characters get
/// their short escapes, the rest of the control characters get a `\u00..`
/// escape with lowercase hex digits, and everything else stands as itself.
pub open spec fn escape_char(c: char) -> Seq<char> {
    if c == '"' {
        seq!['\\', '"']
    } else if c == '\\' {
        seq!['\\', '\\']
    } else if c as u32 == 8 {
        seq!['\\', 'b']
    } else if c as u32 == 12 {
        seq!['\\', 'f']
    } else if c == '\n' {
        seq!['\\', 'n']
    } else if c == '\r' {
        seq!['\\', 'r']
    } else if c == '\t' {
        seq!['\\', 't']
    } else if (c as u32) < 32 {
        seq!['\\', 'u', '0', '0',
            hex_digit_char(c as u32 as int / 16), hex_digit_char(c as u32 as int % 16)]
    } else {
        seq![c]
    }
}

/// The body of the JSON string literal for `s`: each character escaped.
pub open spec fn escape_seq(s: Seq<char>) -> Seq<char>
    decreases s.len(),
{
    if s.len() == 0 {
        Seq::empty()
    } else {
        escape_char(s[0]) + escape_seq(s.drop_first())
    }
}

/// The JSON string literal for `s`, quotes included.
pub open spec fn quoted(s: Seq<char>) -> Seq<char> {
    seq!['"'] + escape_seq(s) + seq!['"']
}

/// What a two-character escape stands for.
pub open spec fn simple_escape(e: char) -> Option<char> {
    if e == '"' {
        Some('"')
    } else if e == '\\' {
        Some('\\')
    } else if e == '/' {
        Some('/')
    } else if e == 'b' {
        Some(8u32 as char)
    } else if e == 'f' {
        Some(12u32 as char)
    } else if e == 'n' {
        Some('\n')
    } else if e == 'r' {
        Some('\r')
    } else if e == 't' {
        Some('\t')
    } else {
        None
    }
}

/// Read a JSON string-literal body up to and including its closing quote.
/// `s` starts just after the opening quote; the result is the decoded
/// content and what follows the closing quote.  Unescaped control
/// characters, bad escapes, and unpaired surrogates are rejected, as the
/// JSON grammar demands.
pub open spec fn parse_str_body(s: Seq<char>) -> Option<(Seq<char>, Seq<char>)>
    decreases s.len(),
{
    if s.len() == 0 {
        None
    } else if s[0] == '"' {
        Some((Seq::empty(), s.drop_first()))
    } else if s[0] == '\\' {
        if s.len() < 2 {
            None
        } else if s[1] == 'u' {
            if !is_hex4_at(s, 2) {
                None
            } else {
                let v = hex4_val_at(s, 2);
                if 0xD800 <= v < 0xDC00 {
                    if s.len() >= 12 && s[6] == '\\' && s[7] == 'u' && is_hex4_at(s, 8)
                        && 0xDC00 <= hex4_val_at(s, 8) < 0xE000 {
                        let w = hex4_val_at(s, 8);
                        let cp = 0x10000 + (v - 0xD800) * 0x400 + (w - 0xDC00);
                        match parse_str_body(s.skip(12)) {
                            Some(p) => Some((seq![(cp as u32) as char] + p.0, p.1)),
                            None => None,
                        }
                    } else {
                        None
                    }
                } else if 0xDC00 <= v < 0xE000 {
                    None
                } else {
                    match parse_str_body(s.skip(6)) {
                        Some(p) => Some((seq![(v as u32) as char] + p.0, p.1)),
                        None => None,
                    }
                }
            }
        } else {
            match simple_escape(s[1]) {
                Some(c) => match parse_str_body(s.skip(2)) {
                    Some(p) => Some((seq![c] + p.0, p.1)),
                    None => None,
                },
                None => None,
            }
        }
    } else if (s[0] as u32) < 32 {
        None
    } else {
        match parse_str_body(s.drop_first()) {
            Some(p) => Some((seq![s[0]] + p.0, p.1)),
            None => None,
        }
    }
}

/// A whole JSON document that is exactly one string literal, with
/// whitespace allowed around it.
pub open spec fn parse_quoted_doc(s: Seq<char>) -> Option<Seq<char>> {
    let t = trim_spec(s, ws_pred());
    if t.len() == 0 || t[0] != '"' {
        None
    } else {
        match parse_str_body(t.drop_first()) {
            Some(p) => if p.1.len() == 0 {
                Some(p.0)
            } else {
                None
            },
            None => None,
        }
    }
}

fn hex_digit(d: u32) -> (r: char)
    requires
        d < 16,
    ensures
        r == hex_digit_char(d as int),
{
    if d < 10 {
        (48 + d as u8) as char
    } else {
        (87 + d as u8) as char
    }
}

proof fn lemma_escape_concat(a: Seq<char>, b: Seq<char>)
    ensures
        escape_seq(a + b) == escape_seq(a) + escape_seq(b),
    decreases a.len(),
{
    if a.len() == 0 {
        assert(a + b =~= b);
        assert(escape_seq(a) + escape_seq(b) =~= escape_seq(b));
    } else {
        assert((a + b).drop_first() =~= a.drop_first() + b);
        lemma_escape_concat(a.drop_first(), b);
        assert(escape_seq(a + b) =~= escape_seq(a) + escape_seq(b));
    }
}

proof fn lemma_escape_snoc(s: Seq<char>, i: int)
    requires
        0 <= i < s.len(),
    ensures
        escape_seq(s.take(i + 1)) == escape_seq(s.take(i)) + escape_char(s[i]),
{
    let one = seq![s[i]];
    assert(s.take(i + 1) =~= s.take(i) + one);
    lemma_escape_concat(s.take(i), one);
    assert(escape_seq(one) =~= escape_char(s[i]) + escape_seq(one.drop_first()));
    assert(escape_seq(one.drop_first()) =~= Seq::<char>::empty());
    assert(escape_seq(one) =~= escape_char(s[i]));
}

/// Write `s` as a JSON string literal, quotes and escapes included.
pub fn json_quote(s: &str) -> (r: String)
    ensures
        r@ == quoted(s@),
{
    let n = s.unicode_len();
    let mut out = String::new();
    push_char(&mut out, '"');
    let mut i: usize = 0;
    while i < n
        invariant
            0 <= i <= n,
            n == s@.len(),
            out@ == seq!['"'] + escape_seq(s@.take(i as int)),
        decreases n - i,
    {
        let c = s.get_char(i);
        let cv = c as u32;
        if c == '"' {
            push_char(&mut out, '\\');
            push_char(&mut out, '"');
        } else if c == '\\' {
            push_char(&mut out, '\\');
            push_char(&mut out, '\\');
        } else if cv == 8 {
            push_char(&mut out, '\\');
            push_char(&mut out, 'b');
        } else if cv == 12 {
            push_char(&mut out, '\\');
            push_char(&mut out, 'f');
        } else if c == '\n' {
            push_char(&mut out, '\\');
            push_char(&mut out, 'n');
        } else if c == '\r' {
            push_char(&mut out, '\\');
            push_char(&mut out, 'r');
        } else if c == '\t' {
            push_char(&mut out, '\\');
            push_char(&mut out, 't');
        } else if cv < 32 {
            push_char(&mut out, '\\');
            push_char(&mut out, 'u');
            push_char(&mut out, '0');
            push_char(&mut out, '0');
            push_char(&mut out, hex_digit(cv / 16));
            push_char(&mut out, hex_digit(cv % 16));
        } else {
            push_char(&mut out, c);
        }
        proof {
            lemma_escape_snoc(s@, i as int);
            assert(out@ =~= seq!['"'] + escape_seq(s@.take(i as int + 1)));
        }
        i = i + 1;
    }
    push_char(&mut out, '"');
    proof {
        assert(s@.take(n as int) =~= s@);
        assert(out@ =~= quoted(s@));
    }
    out
}

/// Relies on `char::from_u32`: it succeeds exactly on the Unicode scalar
/// values (not a surrogate, at most `0x10FFFF`) and yields the character
/// with that code.
#[verifier::external_body]
fn char_from_u32(u: u32) -> (r: Option<char>)
    ensures
        r is Some <==> (u < 0xD800 || (0xE000 <= u && u <= 0x10FFFF)),
        r matches Some(c) ==> c == u as char,
{
    char::from_u32(u)
}

/// A string made of exactly the given characters.
pub fn chars_to_string(v: &Vec<char>) -> (r: String)
    ensures
        r@ == v@,
{
    let mut s = String::new();
    let mut i: usize = 0;
    while i < v.len()
        invariant
            0 <= i <= v@.len(),
            s@ == v@.take(i as int),
        decreases v@.len() - i,
    {
        push_char(&mut s, v[i]);
        proof {
            assert(s@ =~= v@.take(i as int + 1));
        }
        i = i + 1;
    }
    proof {
        assert(v@.take(v@.len() as int) =~= v@);
    }
    s
}

fn hex_val_exec(c: char) -> (r: Option<u32>)
    ensures
        r is Some <==> is_hex(c),
        r matches Some(v) ==> v as int == hex_val(c) && v < 16,
{
    let cv = c as u32;
    if 48 <= cv && cv <= 57 {
        Some(cv - 48)
    } else if 97 <= cv && cv <= 102 {
        Some(cv - 87)
    } else if 65 <= cv && cv <= 70 {
        Some(cv - 55)
    } else {
        None
    }
}

/// Four hex digits read at position `k`; `None` when they are not there.
fn hex4_at(s: &str, k: usize) -> (r: Option<u32>)
    requires
        k + 4 <= s@.len(),
        s@.len() <= usize::MAX,
    ensures
        r is Some <==> is_hex4_at(s@, k as int),
        r matches Some(v) ==> v as int == hex4_val_at(s@, k as int) && v < 0x10000,
{
    let h0 = hex_val_exec(s.get_char(k));
    let h1 = hex_val_exec(s.get_char(k + 1));
    let h2 = hex_val_exec(s.get_char(k + 2));
    let h3 = hex_val_exec(s.get_char(k + 3));
    match (h0, h1, h2, h3) {
        (Some(a), Some(b), Some(c), Some(d)) => Some(a * 4096 + b * 256 + c * 16 + d),
        _ => None,
    }
}

/// Read a string-literal body starting at character position `i` (just past
/// the opening quote); the decoded content and the position just past the
/// closing quote.
fn parse_body_at(s: &str, i: usize) -> (r: Option<(Vec<char>, usize)>)
    requires
        i <= s@.len(),
    ensures
        r matches Some(p) ==> i < p.1 <= s@.len()
            && parse_str_body(s@.skip(i as int)) == Some((p.0@, s@.skip(p.1 as int))),
        r is None ==> parse_str_body(s@.skip(i as int)) is None,
    decreases s@.len() - i,
{
    let ghost t = s@.skip(i as int);
    let n = s.unicode_len();
    if i == n {
        return None;
    }
    let c0 = s.get_char(i);
    proof {
        assert(t[0] == s@[i as int]);
    }
    if c0 == '"' {
        proof {
            assert(t.drop_first() =~= s@.skip(i as int + 1));
        }
        return Some((Vec::new(), i + 1));
    }
    if c0 == '\\' {
        if i + 1 == n {
            proof {
                assert(t.len() < 2);
            }
            return None;
        }
        let e = s.get_char(i + 1);
        proof {
            assert(t[1] == s@[i as int + 1]);
        }
        if e == 'u' {
            if n - i < 6 {
                proof {
                    assert(!is_hex4_at(t, 2));
                }
                return None;
            }
            proof {
                assert(t[2] == s@[i as int + 2]);
                assert(t[3] == s@[i as int + 3]);
                assert(t[4] == s@[i as int + 4]);
                assert(t[5] == s@[i as int + 5]);
            }
            let v = match hex4_at(s, i + 2) {
                Some(v) => v,
                None => {
                    return None;
                },
            };
            if 0xD800 <= v && v < 0xDC00 {
                // a high surrogate: its low partner must follow
                if n - i < 12 {
                    return None;
                }
                proof {
                    assert(t[6] == s@[i as int + 6]);
                    assert(t[7] == s@[i as int + 7]);
                    assert(t[8] == s@[i as int + 8]);
                    assert(t[9] == s@[i as int + 9]);
                    assert(t[10] == s@[i as int + 10]);
                    assert(t[11] == s@[i as int + 11]);
                }
                if s.get_char(i + 6) != '\\' || s.get_char(i + 7) != 'u' {
                    return None;
                }
                let w = match hex4_at(s, i + 8) {
                    Some(w) => w,
                    None => {
                        return None;
                    },
                };
                if !(0xDC00 <= w && w < 0xE000) {
                    return None;
                }
                let cp: u32 = 0x10000 + (v - 0xD800) * 0x400 + (w - 0xDC00);
                let c = match char_from_u32(cp) {
                    Some(c) => c,
                    None => {
                        return None;
                    },
                };
                proof {
                    assert(t.skip(12) =~= s@.skip(i as int + 12));
                }
                match parse_body_at(s, i + 12) {
                    Some(p) => {
                        let (mut content, j) = p;
                        content.insert(0, c);
                        proof {
                            assert(content@ =~= seq![c] + content@.drop_first());
                        }
                        return Some((content, j));
                    },
                    None => {
                        return None;
                    },
                }
            }
            if 0xDC00 <= v && v < 0xE000 {
                return None;
            }
            let c = match char_from_u32(v) {
                Some(c) => c,
                None => {
                    return None;
                },
            };
            proof {
                assert(t.skip(6) =~= s@.skip(i as int + 6));
            }
            match parse_body_at(s, i + 6) {
                Some(p) => {
                    let (mut content, j) = p;
                    content.insert(0, c);
                    proof {
                        assert(content@ =~= seq![c] + content@.drop_first());
                    }
                    return Some((content, j));
                },
                None => {
                    return None;
                },
            }
        }
        let c = if e == '"' {
            '"'
        } else if e == '\\' {
            '\\'
        } else if e == '/' {
            '/'
        } else if e == 'b' {
            match char_from_u32(8) {
                Some(c) => c,
                None => {
                    return None;
                },
            }
        } else if e == 'f' {
            match char_from_u32(12) {
                Some(c) => c,
                None => {
                    return None;
                },
            }
        } else if e == 'n' {
            '\n'
        } else if e == 'r' {
            '\r'
        } else if e == 't' {
            '\t'
        } else {
            return None;
        };
        proof {
            assert(simple_escape(t[1]) == Some(c));
            assert(t.skip(2) =~= s@.skip(i as int + 2));
        }
        match parse_body_at(s, i + 2) {
            Some(p) => {
                let (mut content, j) = p;
                content.insert(0, c);
                proof {
                    assert(content@ =~= seq![c] + content@.drop_first());
                }
                return Some((content, j));
            },
            None => {
                return None;
            },
        }
    }
    if (c0 as u32) < 32 {
        return None;
    }
    proof {
        assert(t.drop_first() =~= s@.skip(i as int + 1));
    }
    match parse_body_at(s, i + 1) {
        Some(p) => {
            let (mut content, j) = p;
            content.insert(0, c0);
            proof {
                assert(content@ =~= seq![c0] + content@.drop_first());
            }
            Some((content, j))
        },
        None => None,
    }
}

/// Read a whole JSON document that must be exactly one string literal
/// (whitespace around it allowed), giving its decoded content.
pub fn json_unquote(s: &str) -> (r: Option<String>)
    ensures
        r matches Some(v) ==> parse_quoted_doc(s@) == Some(v@),
        r is None ==> parse_quoted_doc(s@) is None,
{
    let t = trim_ws(s);
    let n = t.unicode_len();
    if n == 0 {
        return None;
    }
    if t.get_char(0) != '"' {
        return None;
    }
    proof {
        assert(t@.skip(1) =~= t@.drop_first());
    }
    match parse_body_at(t, 1) {
        Some(p) => {
            let (content, j) = p;
            if j == n {
                proof {
                    assert(t@.skip(j as int) =~= Seq::<char>::empty());
                }
                Some(chars_to_string(&content))
            } else {
                proof {
                    assert(t@.skip(j as int).len() > 0);
                }
                None
            }
        },
        None => None,
    }
}

proof fn lemma_hex_digit_char(d: int)
    requires
        0 <= d < 16,
    ensures
        is_hex(hex_digit_char(d)),
        hex_val(hex_digit_char(d)) == d,
{
}

/// Round-trip law for the string grammar: reading a literal body that
/// `escape_seq` wrote recovers the original text, whatever follows the
/// closing quote.
#[verifier::rlimit(60)]
pub proof fn lemma_unquote_quoted(s: Seq<char>, rest: Seq<char>)
    ensures
        parse_str_body(escape_seq(s) + seq!['"'] + rest) == Some((s, rest)),
    decreases s.len(),
{
    let t = escape_seq(s) + seq!['"'] + rest;
    if s.len() == 0 {
        assert(t[0] == '"');
        assert(t.drop_first() =~= rest);
        assert(parse_str_body(t) == Some((Seq::<char>::empty(), rest)));
    } else {
        let c = s[0];
        let e = escape_char(c);
        let tail = escape_seq(s.drop_first()) + seq!['"'] + rest;
        assert(t =~= e + tail);
        lemma_unquote_quoted(s.drop_first(), rest);
        assert(seq![c] + s.drop_first() =~= s);
        if c == '"' || c == '\\' || c as u32 == 8 || c as u32 == 12 || c == '\n' || c == '\r'
            || c == '\t' {
            assert(e.len() == 2);
            assert(t[0] == e[0] && t[1] == e[1]);
            assert(t[0] == '\\');
            if c as u32 == 8 {
                vstd::utf8::char_u32_cast(c, 8);
            }
            if c as u32 == 12 {
                vstd::utf8::char_u32_cast(c, 12);
            }
            assert(simple_escape(t[1]) == Some(c));
            assert(t.skip(2) =~= tail);
            assert(parse_str_body(t) == Some((s, rest)));
        } else if (c as u32) < 32 {
            let cv = c as u32 as int;
            assert(e.len() == 6);
            assert(t[0] == e[0] && t[1] == e[1] && t[2] == e[2] && t[3] == e[3] && t[4] == e[4]
                && t[5] == e[5]);
            assert(t[0] == '\\');
            assert(t[1] == 'u');
            assert(t[2] == '0');
            assert(t[3] == '0');
            assert(t[4] == hex_digit_char(cv / 16));
            assert(t[5] == hex_digit_char(cv % 16));
            vstd::arithmetic::div_mod::lemma_fundamental_div_mod(cv, 16);
            lemma_hex_digit_char(cv / 16);
            lemma_hex_digit_char(cv % 16);
            assert(hex_val('0') == 0);
            assert(is_hex4_at(t, 2));
            assert(hex4_val_at(t, 2) == cv);
            vstd::utf8::char_u32_cast(c, c as u32);
            assert((cv as u32) as char == c);
            assert(t.skip(6) =~= tail);
            assert(parse_str_body(t) == Some((s, rest)));
        } else {
            assert(t[0] == c);
            assert(t[0] != '"' && t[0] != '\\' && (t[0] as u32) >= 32);
            assert(t.drop_first() =~= tail);
            assert(parse_str_body(t) == Some((s, rest)));
        }
    }
}

/// Round-trip law at the text layer: the JSON string literal that
/// `json_quote` writes for a text reads back to exactly that text.
pub proof fn lemma_quote_round_trip(s: Seq<char>)
    ensures
        parse_quoted_doc(quoted(s)) == Some(s),
{
    let q = quoted(s);
    assert(q[0] == '"');
    lemma_count_leading_unique(q, ws_pred(), 0);
    lemma_count_trailing_unique(q, ws_pred(), q.len() as int);
    assert(trim_spec(q, ws_pred()) =~= q);
    assert(q.drop_first() =~= escape_seq(s) + seq!['"'] + Seq::<char>::empty());
    lemma_unquote_quoted(s, Seq::<char>::empty());
}

// ---------------------------------------------------------------------------
// the one-field-object framing used for outcome values
// ---------------------------------------------------------------------------

/// The JSON object with exactly one field: `{"tag":"content"}`, both the
/// field name and its value written as string literals.
pub open spec fn tagged_doc(tag: Seq<char>, content: Seq<char>) -> Seq<char> {
    seq!['{'] + quoted(tag) + seq![':'] + quoted(content) + seq!['}']
}

/// `s` without its leading whitespace.
pub open spec fn skip_ws(s: Seq<char>) -> Seq<char> {
    s.skip(count_leading(s, ws_pred()))
}

/// Read a whole JSON document that must be exactly one object with one
/// field whose value is a string literal, with whitespace allowed between
/// the tokens: the field name and the decoded field value.
pub open spec fn parse_tagged_doc(s: Seq<char>) -> Option<(Seq<char>, Seq<char>)> {
    let t0 = skip_ws(s);
    if t0.len() == 0 || t0[0] != '{' {
        None
    } else {
        let t1 = skip_ws(t0.drop_first());
        if t1.len() == 0 || t1[0] != '"' {
            None
        } else {
            match parse_str_body(t1.drop_first()) {
                None => None,
                Some(ptag) => {
                    let t2 = skip_ws(ptag.1);
                    if t2.len() == 0 || t2[0] != ':' {
                        None
                    } else {
                        let t3 = skip_ws(t2.drop_first());
                        if t3.len() == 0 || t3[0] != '"' {
                            None
                        } else {
                            match parse_str_body(t3.drop_first()) {
                                None => None,
                                Some(pc) => {
                                    let t4 = skip_ws(pc.1);
                                    if t4.len() == 0 || t4[0] != '}' {
                                        None
                                    } else if skip_ws(t4.drop_first()).len() != 0 {
                                        None
                                    } else {
                                        Some((ptag.0, pc.0))
                                    }
                                },
                            }
                        }
                    }
                },
            }
        }
    }
}

/// Write the one-field object `{"tag":"content"}`.
pub fn make_tagged(tag: &str, content: &str) -> (r: String)
    ensures
        r@ == tagged_doc(tag@, content@),
{
    let mut out = String::new();
    push_char(&mut out, '{');
    let qt = json_quote(tag);
    out.append(qt.as_str());
    push_char(&mut out, ':');
    let qc = json_quote(content);
    out.append(qc.as_str());
    push_char(&mut out, '}');
    proof {
        assert(out@ =~= tagged_doc(tag@, content@));
    }
    out
}

fn skip_ws_at(s: &str, i: usize) -> (j: usize)
    requires
        i <= s@.len(),
    ensures
        i <= j <= s@.len(),
        s@.skip(j as int) == skip_ws(s@.skip(i as int)),
        j < s@.len() ==> !json_ws(s@[j as int]),
{
    let n = s.unicode_len();
    let mut j: usize = i;
    while j < n && is_ws_exec(s.get_char(j))
        invariant
            i <= j <= n,
            n == s@.len(),
            forall|k: int| i <= k < j ==> json_ws(#[trigger] s@[k]),
        decreases n - j,
    {
        j = j + 1;
    }
    proof {
        let t = s@.skip(i as int);
        assert(forall|k: int| 0 <= k < j - i ==> ws_pred()(#[trigger] t[k]));
        if j < n {
            assert(t[j - i] == s@[j as int]);
        }
        lemma_count_leading_unique(t, ws_pred(), j - i);
        assert(t.skip(j - i) =~= s@.skip(j as int));
    }
    j
}

/// Read a whole JSON document that must be exactly a one-string-field
/// object, giving the field name and the decoded field value.
pub fn parse_tagged(s: &str) -> (r: Option<(String, String)>)
    ensures
        r matches Some(p) ==> parse_tagged_doc(s@) == Some((p.0@, p.1@)),
        r is None ==> parse_tagged_doc(s@) is None,
{
    let n = s.unicode_len();
    let i0 = skip_ws_at(s, 0);
    proof {
        assert(s@.skip(0) =~= s@);
    }
    if i0 == n {
        return None;
    }
    if s.get_char(i0) != '{' {
        proof {
            assert(skip_ws(s@)[0] == s@[i0 as int]);
        }
        return None;
    }
    proof {
        assert(skip_ws(s@)[0] == s@[i0 as int]);
        assert(skip_ws(s@).drop_first() =~= s@.skip(i0 as int + 1));
    }
    let i1 = skip_ws_at(s, i0 + 1);
    if i1 == n {
        return None;
    }
    if s.get_char(i1) != '"' {
        proof {
            assert(s@.skip(i1 as int)[0] == s@[i1 as int]);
        }
        return None;
    }
    proof {
        assert(s@.skip(i1 as int)[0] == s@[i1 as int]);
        assert(s@.skip(i1 as int).drop_first() =~= s@.skip(i1 as int + 1));
    }
    let (tag_chars, j1) = match parse_body_at(s, i1 + 1) {
        Some(p) => p,
        None => {
            return None;
        },
    };
    let i2 = skip_ws_at(s, j1);
    if i2 == n {
        return None;
    }
    if s.get_char(i2) != ':' {
        proof {
            assert(s@.skip(i2 as int)[0] == s@[i2 as int]);
        }
        return None;
    }
    proof {
        assert(s@.skip(i2 as int)[0] == s@[i2 as int]);
        assert(s@.skip(i2 as int).drop_first() =~= s@.skip(i2 as int + 1));
    }
    let i3 = skip_ws_at(s, i2 + 1);
    if i3 == n {
        return None;
    }
    if s.get_char(i3) != '"' {
        proof {
            assert(s@.skip(i3 as int)[0] == s@[i3 as int]);
        }
        return None;
    }
    proof {
        assert(s@.skip(i3 as int)[0] == s@[i3 as int]);
        assert(s@.skip(i3 as int).drop_first() =~= s@.skip(i3 as int + 1));
    }
    let (content_chars, j2) = match parse_body_at(s, i3 + 1) {
        Some(p) => p,
        None => {
            return None;
        },
    };
    let i4 = skip_ws_at(s, j2);
    if i4 == n {
        return None;
    }
    if s.get_char(i4) != '}' {
        proof {
            assert(s@.skip(i4 as int)[0] == s@[i4 as int]);
        }
        return None;
    }
    proof {
        assert(s@.skip(i4 as int)[0] == s@[i4 as int]);
        assert(s@.skip(i4 as int).drop_first() =~= s@.skip(i4 as int + 1));
    }
    let i5 = skip_ws_at(s, i4 + 1);
    if i5 != n {
        proof {
            assert(s@.skip(i5 as int).len() != 0);
        }
        return None;
    }
    proof {
        assert(s@.skip(i5 as int).len() == 0);
    }
    Some((chars_to_string(&tag_chars), chars_to_string(&content_chars)))
}

proof fn lemma_skip_ws_id(s: Seq<char>)
    requires
        s.len() == 0 || !json_ws(s[0]),
    ensures
        skip_ws(s) == s,
{
    assert(count_leading(s, ws_pred()) == 0);
    assert(s.skip(0) =~= s);
}

/// Round-trip law for the one-field-object framing: reading back the
/// document that `make_tagged` wrote recovers the field name and value.
pub proof fn lemma_tagged_round_trip(tag: Seq<char>, content: Seq<char>)
    ensures
        parse_tagged_doc(tagged_doc(tag, content)) == Some((tag, content)),
{
    let d = tagged_doc(tag, content);
    assert(d[0] == '{');
    lemma_skip_ws_id(d);
    let rest1 = seq![':'] + quoted(content) + seq!['}'];
    assert(d.drop_first() =~= quoted(tag) + rest1);
    assert((quoted(tag) + rest1)[0] == '"');
    lemma_skip_ws_id(quoted(tag) + rest1);
    assert((quoted(tag) + rest1).drop_first() =~= escape_seq(tag) + seq!['"'] + rest1);
    lemma_unquote_quoted(tag, rest1);
    assert(rest1[0] == ':');
    lemma_skip_ws_id(rest1);
    let rest2 = quoted(content) + seq!['}'];
    assert(rest1.drop_first() =~= rest2);
    assert(rest2[0] == '"');
    lemma_skip_ws_id(rest2);
    assert(rest2.drop_first() =~= escape_seq(content) + seq!['"'] + seq!['}']);
    lemma_unquote_quoted(content, seq!['}']);
    let rest3 = seq!['}'];
    assert(rest3[0] == '}');
    lemma_skip_ws_id(rest3);
    assert(rest3.drop_first() =~= Seq::<char>::empty());
    lemma_skip_ws_id(Seq::<char>::empty());
}

/// Parse a JSON unsigned-integer document into 32 bits.
pub fn parse_dec_u32(s: &str) -> (r: Option<u32>)
    ensures
        r is Some <==> valid_unsigned_doc(s@) && dec_val(s@) <= u32::MAX,
        r matches Some(u) ==> u as nat == dec_val(s@),
{
    match parse_dec_u64(s) {
        Some(u) => {
            if u <= 0xFFFF_FFFFu64 {
                Some(u as u32)
            } else {
                None
            }
        },
        None => {
            proof {
                if valid_unsigned_doc(s@) && dec_val(s@) <= u32::MAX {
                    assert(dec_val(s@) <= u64::MAX);
                }
            }
            None
        },
    }
}

} // verus!
