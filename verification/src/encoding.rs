use vstd::prelude::*;

verus! {

/// The ten decimal digit characters.
pub open spec fn is_digit(c: char) -> bool {
    ||| c == '0'
    ||| c == '1'
    ||| c == '2'
    ||| c == '3'
    ||| c == '4'
    ||| c == '5'
    ||| c == '6'
    ||| c == '7'
    ||| c == '8'
    ||| c == '9'
}

/// The character of one digit value.
pub open spec fn digit_char(d: nat) -> char {
    if d == 0 {
        '0'
    } else if d == 1 {
        '1'
    } else if d == 2 {
        '2'
    } else if d == 3 {
        '3'
    } else if d == 4 {
        '4'
    } else if d == 5 {
        '5'
    } else if d == 6 {
        '6'
    } else if d == 7 {
        '7'
    } else if d == 8 {
        '8'
    } else {
        '9'
    }
}

/// The value of one digit character.
pub open spec fn digit_val(c: char) -> nat {
    if c == '0' {
        0
    } else if c == '1' {
        1
    } else if c == '2' {
        2
    } else if c == '3' {
        3
    } else if c == '4' {
        4
    } else if c == '5' {
        5
    } else if c == '6' {
        6
    } else if c == '7' {
        7
    } else if c == '8' {
        8
    } else {
        9
    }
}

/// The decimal writing of a number, most significant digit first, without
/// leading zeroes (a single `'0'` for zero).
pub open spec fn dec_str(n: nat) -> Seq<char>
    decreases n,
{
    if n < 10 {
        seq![digit_char(n)]
    } else {
        dec_str(n / 10).push(digit_char(n % 10))
    }
}

/// The number a digit string stands for.
pub open spec fn dec_val(s: Seq<char>) -> nat
    decreases s.len(),
{
    if s.len() == 0 {
        0
    } else {
        dec_val(s.drop_last()) * 10 + digit_val(s.last())
    }
}

/// Every character of a decimal writing is a digit.
pub proof fn lemma_dec_str_digits(n: nat)
    ensures
        dec_str(n).len() >= 1,
        forall|i: int| 0 <= i < dec_str(n).len() ==> is_digit(#[trigger] dec_str(n)[i]),
    decreases n,
{
    if n >= 10 {
        lemma_dec_str_digits(n / 10);
    }
}

/// Writing one digit and reading it back is the identity.
pub proof fn lemma_digit_round_trip(d: nat)
    requires
        d < 10,
    ensures
        digit_val(digit_char(d)) == d,
{
}

/// Reading a decimal writing back gives the number it was written from.
pub proof fn lemma_dec_val_of_dec_str(n: nat)
    ensures
        dec_val(dec_str(n)) == n,
    decreases n,
{
    if n < 10 {
        lemma_digit_round_trip(n);
        assert(dec_str(n).drop_last() =~= Seq::<char>::empty());
        assert(dec_str(n).last() == digit_char(n));
        assert(dec_val(dec_str(n)) == dec_val(Seq::<char>::empty()) * 10 + digit_val(
            digit_char(n),
        ));
    } else {
        lemma_dec_val_of_dec_str(n / 10);
        lemma_digit_round_trip(n % 10);
        assert(dec_str(n).drop_last() =~= dec_str(n / 10));
        assert(dec_str(n).last() == digit_char(n % 10));
        assert(dec_val(dec_str(n)) == dec_val(dec_str(n / 10)) * 10 + digit_val(
            digit_char(n % 10),
        ));
        assert(n / 10 * 10 + n % 10 == n) by (nonlinear_arith);
    }
}

/// The one-character string of one digit value.
fn digit_str(d: u8) -> (r: &'static str)
    requires
        d < 10,
    ensures
        r@ == seq![digit_char(d as nat)],
{
    proof {
        reveal_strlit("0");
        reveal_strlit("1");
        reveal_strlit("2");
        reveal_strlit("3");
        reveal_strlit("4");
        reveal_strlit("5");
        reveal_strlit("6");
        reveal_strlit("7");
        reveal_strlit("8");
        reveal_strlit("9");
    }
    let r = if d == 0 {
        "0"
    } else if d == 1 {
        "1"
    } else if d == 2 {
        "2"
    } else if d == 3 {
        "3"
    } else if d == 4 {
        "4"
    } else if d == 5 {
        "5"
    } else if d == 6 {
        "6"
    } else if d == 7 {
        "7"
    } else if d == 8 {
        "8"
    } else {
        "9"
    };
    proof {
        assert(r@ =~= seq![digit_char(d as nat)]);
    }
    r
}

/// The digit characters of the low-to-high digit values in `s`, read from the
/// back: element `i` of the result is the digit for `s[s.len() - 1 - i]`.
pub open spec fn rev_digit_chars(s: Seq<u8>) -> Seq<char> {
    Seq::new(s.len(), |i: int| digit_char(s[s.len() - 1 - i] as nat))
}

/// Write a number in decimal.
pub fn u64_to_dec(n: u64) -> (s: String)
    ensures
        s@ == dec_str(n as nat),
{
    let mut digits: Vec<u8> = Vec::new();
    let mut m: u64 = n;
    digits.push((m % 10) as u8);
    m = m / 10;
    while m > 0
        invariant
            digits.len() >= 1,
            forall|i: int| 0 <= i < digits.len() ==> digits@[i] < 10,
            dec_str(n as nat) =~= (if m > 0 {
                dec_str(m as nat)
            } else {
                Seq::<char>::empty()
            }) + rev_digit_chars(digits@),
        decreases m,
    {
        let ghost old_digits = digits@;
        let ghost old_m = m as nat;
        digits.push((m % 10) as u8);
        m = m / 10;
        proof {
            assert(rev_digit_chars(old_digits.push((old_m % 10) as u8)) =~= seq![
                digit_char(old_m % 10),
            ] + rev_digit_chars(old_digits));
            if m > 0 {
                assert(dec_str(old_m) =~= dec_str(old_m / 10).push(digit_char(old_m % 10)));
                assert(dec_str(n as nat) =~= dec_str(m as nat) + rev_digit_chars(digits@));
            } else {
                assert(dec_str(old_m) =~= seq![digit_char(old_m)]);
                assert(dec_str(n as nat) =~= rev_digit_chars(digits@));
            }
        }
    }
    let mut s = String::new();
    let mut i = digits.len();
    while i > 0
        invariant
            i <= digits.len(),
            forall|j: int| 0 <= j < digits.len() ==> digits@[j] < 10,
            s@ =~= rev_digit_chars(digits@).subrange(0, digits.len() - i),
        decreases i,
    {
        i = i - 1;
        let part = digit_str(digits[i]);
        s.append(part);
        proof {
            assert(s@ =~= rev_digit_chars(digits@).subrange(0, digits.len() - i));
        }
    }
    proof {
        assert(rev_digit_chars(digits@).subrange(0, digits.len() as int) =~= rev_digit_chars(
            digits@,
        ));
        assert(s@ =~= dec_str(n as nat));
    }
    s
}

/// The serialized structured-text blob of one message: author identity,
/// message identity, then the author name and the message text, each preceded
/// by its length in characters, so that the writing is unambiguous without
/// any escaping.
pub open spec fn info_blob(name: Seq<char>, user_id: u64, text: Seq<char>, message_id: u64) -> Seq<
    char,
> {
    "uid:"@ + dec_str(user_id as nat) + ";mid:"@ + dec_str(message_id as nat) + ";name:"@
        + dec_str(name.len()) + ":"@ + name + ";text:"@ + dec_str(text.len()) + ":"@ + text + ";"@
}

/// Serialize the four fields of one message into the stable structured-text
/// blob that a content unit's text part carries.
pub fn serialize_message_info(name: &str, user_id: u64, text: &str, message_id: u64) -> (r: String)
    ensures
        r@ == info_blob(name@, user_id, text@, message_id),
{
    let name_len = name.unicode_len();
    let text_len = text.unicode_len();
    let mut r = String::new();
    r.append("uid:");
    let part = u64_to_dec(user_id);
    r.append(part.as_str());
    r.append(";mid:");
    let part = u64_to_dec(message_id);
    r.append(part.as_str());
    r.append(";name:");
    let part = u64_to_dec(name_len as u64);
    r.append(part.as_str());
    r.append(":");
    r.append(name);
    r.append(";text:");
    let part = u64_to_dec(text_len as u64);
    r.append(part.as_str());
    r.append(":");
    r.append(text);
    r.append(";");
    proof {
        assert(r@ =~= info_blob(name@, user_id, text@, message_id));
    }
    r
}

/// The first position at or after `i` that does not hold a digit; the end of
/// the string when digits run to its end.
pub open spec fn scan_digits(s: Seq<char>, i: int) -> int
    decreases s.len() - i
        when 0 <= i <= s.len()
{
    if i >= s.len() {
        i
    } else if is_digit(s[i]) {
        scan_digits(s, i + 1)
    } else {
        i
    }
}

proof fn lemma_scan_digits_bounds(s: Seq<char>, i: int)
    requires
        0 <= i <= s.len(),
    ensures
        i <= scan_digits(s, i) <= s.len(),
        forall|k: int| i <= k < scan_digits(s, i) ==> is_digit(#[trigger] s[k]),
        scan_digits(s, i) < s.len() ==> !is_digit(s[scan_digits(s, i)]),
    decreases s.len() - i,
{
    if i < s.len() && is_digit(s[i]) {
        lemma_scan_digits_bounds(s, i + 1);
    }
}

proof fn lemma_scan_digits_run(s: Seq<char>, i: int, j: int)
    requires
        0 <= i <= j <= s.len(),
        forall|k: int| i <= k < j ==> is_digit(#[trigger] s[k]),
        j == s.len() || !is_digit(s[j]),
    ensures
        scan_digits(s, i) == j,
    decreases j - i,
{
    if i < j {
        lemma_scan_digits_run(s, i + 1, j);
    }
}

proof fn lemma_dec_val_extend_range(s: Seq<char>, p: int, j: int)
    requires
        0 <= p <= j < s.len(),
    ensures
        dec_val(s.subrange(p, j + 1)) == dec_val(s.subrange(p, j)) * 10 + digit_val(s[j]),
{
    assert(s.subrange(p, j + 1).drop_last() =~= s.subrange(p, j));
    assert(s.subrange(p, j + 1).last() == s[j]);
}

proof fn lemma_dec_val_monotone_range(s: Seq<char>, p: int, a: int, b: int)
    requires
        0 <= p <= a <= b <= s.len(),
    ensures
        dec_val(s.subrange(p, a)) <= dec_val(s.subrange(p, b)),
    decreases b - a,
{
    if a < b {
        lemma_dec_val_monotone_range(s, p, a, b - 1);
        lemma_dec_val_extend_range(s, p, b - 1);
    }
}

/// Whether one character is a decimal digit.
fn is_digit_char(c: char) -> (b: bool)
    ensures
        b == is_digit(c),
{
    c == '0' || c == '1' || c == '2' || c == '3' || c == '4' || c == '5' || c == '6' || c == '7'
        || c == '8' || c == '9'
}

/// The value of one digit character.
fn digit_of(c: char) -> (d: u8)
    requires
        is_digit(c),
    ensures
        d as nat == digit_val(c),
        d < 10,
{
    if c == '0' {
        0
    } else if c == '1' {
        1
    } else if c == '2' {
        2
    } else if c == '3' {
        3
    } else if c == '4' {
        4
    } else if c == '5' {
        5
    } else if c == '6' {
        6
    } else if c == '7' {
        7
    } else if c == '8' {
        8
    } else {
        9
    }
}

/// Whether the literal occurs in `s` at position `i`.
fn expect_lit(s: &str, i: usize, lit: &str) -> (b: bool)
    requires
        i <= s@.len(),
    ensures
        b == (i + lit@.len() <= s@.len() && s@.subrange(i as int, i + lit@.len()) == lit@),
{
    let l = lit.unicode_len();
    let n = s.unicode_len();
    if l > n - i {
        return false;
    }
    let mut k: usize = 0;
    while k < l
        invariant
            k <= l,
            l == lit@.len(),
            n == s@.len(),
            i + l <= n,
            forall|j: int| 0 <= j < k ==> s@[i + j] == lit@[j],
        decreases l - k,
    {
        if s.get_char(i + k) != lit.get_char(k) {
            proof {
                assert(s@.subrange(i as int, i + lit@.len())[k as int] != lit@[k as int]);
            }
            return false;
        }
        k = k + 1;
    }
    proof {
        assert(s@.subrange(i as int, i + lit@.len()) =~= lit@);
    }
    true
}

/// The first position at or after `i` without a digit.
fn scan_digits_at(s: &str, i: usize) -> (j: usize)
    requires
        i <= s@.len(),
    ensures
        j as int == scan_digits(s@, i as int),
        i <= j <= s@.len(),
{
    let n = s.unicode_len();
    let mut j = i;
    while j < n && is_digit_char(s.get_char(j))
        invariant
            i <= j <= n,
            n == s@.len(),
            scan_digits(s@, i as int) == scan_digits(s@, j as int),
        decreases n - j,
    {
        j = j + 1;
    }
    j
}

/// Read the digit run `s[from..to]` as a number, detecting values that do
/// not fit.
fn parse_digits_u64(s: &str, from: usize, to: usize) -> (r: Option<u64>)
    requires
        from <= to <= s@.len(),
        forall|k: int| from <= k < to ==> is_digit(#[trigger] s@[k]),
    ensures
        (match r {
            Some(v) => v as nat == dec_val(s@.subrange(from as int, to as int)),
            None => dec_val(s@.subrange(from as int, to as int)) > u64::MAX,
        }),
{
    let mut acc: u64 = 0;
    let mut j = from;
    proof {
        assert(s@.subrange(from as int, from as int) =~= Seq::<char>::empty());
    }
    while j < to
        invariant
            from <= j <= to <= s@.len(),
            forall|k: int| from <= k < to ==> is_digit(#[trigger] s@[k]),
            acc as nat == dec_val(s@.subrange(from as int, j as int)),
        decreases to - j,
    {
        let d = digit_of(s.get_char(j));
        proof {
            lemma_dec_val_extend_range(s@, from as int, j as int);
        }
        let scaled = match acc.checked_mul(10) {
            Some(t) => t,
            None => {
                proof {
                    lemma_dec_val_monotone_range(s@, from as int, j + 1, to as int);
                }
                return None;
            },
        };
        let next = match scaled.checked_add(d as u64) {
            Some(v) => v,
            None => {
                proof {
                    lemma_dec_val_monotone_range(s@, from as int, j + 1, to as int);
                }
                return None;
            },
        };
        acc = next;
        j = j + 1;
    }
    proof {
        assert(s@.subrange(from as int, to as int) =~= s@.subrange(from as int, j as int));
    }
    Some(acc)
}

/// The four fields a structured-text blob carries.
pub struct MessageInfo {
    pub user_name: String,
    pub user_id: u64,
    pub message_content: String,
    pub message_id: u64,
}

/// The mathematical value of a [`MessageInfo`].
pub struct InfoV {
    pub user_name: Seq<char>,
    pub user_id: u64,
    pub message_content: Seq<char>,
    pub message_id: u64,
}

impl View for MessageInfo {
    type V = InfoV;

    open spec fn view(&self) -> InfoV {
        InfoV {
            user_name: self.user_name@,
            user_id: self.user_id,
            message_content: self.message_content@,
            message_id: self.message_id,
        }
    }
}

/// What parsing a structured-text blob yields: the four fields written by
/// [`info_blob`], or nothing when the text is not such a writing. The whole
/// contract of [`parse_message_info`].
pub open spec fn parse_info_spec(s: Seq<char>) -> Option<InfoV> {
    if s.len() < 4 || s.subrange(0, 4) != "uid:"@ {
        None
    } else {
        let d1 = scan_digits(s, 4);
        if d1 == 4 || dec_val(s.subrange(4, d1)) > u64::MAX {
            None
        } else {
            let uid = dec_val(s.subrange(4, d1)) as u64;
            if d1 + 5 > s.len() || s.subrange(d1, d1 + 5) != ";mid:"@ {
                None
            } else {
                let p2 = d1 + 5;
                let d2 = scan_digits(s, p2);
                if d2 == p2 || dec_val(s.subrange(p2, d2)) > u64::MAX {
                    None
                } else {
                    let mid = dec_val(s.subrange(p2, d2)) as u64;
                    if d2 + 6 > s.len() || s.subrange(d2, d2 + 6) != ";name:"@ {
                        None
                    } else {
                        let p3 = d2 + 6;
                        let d3 = scan_digits(s, p3);
                        if d3 == p3 || dec_val(s.subrange(p3, d3)) > u64::MAX {
                            None
                        } else {
                            let nl = dec_val(s.subrange(p3, d3)) as int;
                            if d3 >= s.len() || s[d3] != ':' || d3 + 1 + nl > s.len() {
                                None
                            } else {
                                let name = s.subrange(d3 + 1, d3 + 1 + nl);
                                let p4 = d3 + 1 + nl;
                                if p4 + 6 > s.len() || s.subrange(p4, p4 + 6) != ";text:"@ {
                                    None
                                } else {
                                    let p5 = p4 + 6;
                                    let d4 = scan_digits(s, p5);
                                    if d4 == p5 || dec_val(s.subrange(p5, d4)) > u64::MAX {
                                        None
                                    } else {
                                        let tl = dec_val(s.subrange(p5, d4)) as int;
                                        if d4 >= s.len() || s[d4] != ':' || d4 + 1 + tl + 1
                                            != s.len() || s[d4 + 1 + tl] != ';' {
                                            None
                                        } else {
                                            Some(
                                                InfoV {
                                                    user_name: name,
                                                    user_id: uid,
                                                    message_content: s.subrange(
                                                        d4 + 1,
                                                        d4 + 1 + tl,
                                                    ),
                                                    message_id: mid,
                                                },
                                            )
                                        }
                                    }
                                }
                            }
                        }
                    }
                }
            }
        }
    }
}

/// Parse a structured-text blob back into its four fields: exactly the
/// inverse reading of [`info_blob`]'s writing, nothing for any other text.
pub fn parse_message_info(s: &str) -> (r: Option<MessageInfo>)
    ensures
        (match r {
            Some(info) => parse_info_spec(s@) == Some(info@),
            None => parse_info_spec(s@) is None,
        }),
{
    let n = s.unicode_len();
    if !expect_lit(s, 0, "uid:") {
        proof {
            reveal_strlit("uid:");
        }
        return None;
    }
    proof {
        reveal_strlit("uid:");
        lemma_scan_digits_bounds(s@, 4);
    }
    let d1 = scan_digits_at(s, 4);
    if d1 == 4 {
        return None;
    }
    let uid = match parse_digits_u64(s, 4, d1) {
        Some(v) => v,
        None => {
            return None;
        },
    };
    if !expect_lit(s, d1, ";mid:") {
        proof {
            reveal_strlit(";mid:");
        }
        return None;
    }
    proof {
        reveal_strlit(";mid:");
    }
    let p2 = d1 + 5;
    proof {
        lemma_scan_digits_bounds(s@, p2 as int);
    }
    let d2 = scan_digits_at(s, p2);
    if d2 == p2 {
        return None;
    }
    let mid = match parse_digits_u64(s, p2, d2) {
        Some(v) => v,
        None => {
            return None;
        },
    };
    if !expect_lit(s, d2, ";name:") {
        proof {
            reveal_strlit(";name:");
        }
        return None;
    }
    proof {
        reveal_strlit(";name:");
    }
    let p3 = d2 + 6;
    proof {
        lemma_scan_digits_bounds(s@, p3 as int);
    }
    let d3 = scan_digits_at(s, p3);
    if d3 == p3 {
        return None;
    }
    let nl64 = match parse_digits_u64(s, p3, d3) {
        Some(v) => v,
        None => {
            return None;
        },
    };
    if d3 == n {
        return None;
    }
    if s.get_char(d3) != ':' {
        return None;
    }
    let after_name = n - (d3 + 1);
    if nl64 > after_name as u64 {
        return None;
    }
    let nl = nl64 as usize;
    let name_end = d3 + 1 + nl;
    let name = String::from_str(s.substring_char(d3 + 1, name_end));
    if !expect_lit(s, name_end, ";text:") {
        proof {
            reveal_strlit(";text:");
        }
        return None;
    }
    proof {
        reveal_strlit(";text:");
    }
    let p5 = name_end + 6;
    proof {
        lemma_scan_digits_bounds(s@, p5 as int);
    }
    let d4 = scan_digits_at(s, p5);
    if d4 == p5 {
        return None;
    }
    let tl64 = match parse_digits_u64(s, p5, d4) {
        Some(v) => v,
        None => {
            return None;
        },
    };
    if d4 == n {
        return None;
    }
    if s.get_char(d4) != ':' {
        return None;
    }
    let after_text = n - (d4 + 1);
    if tl64 > after_text as u64 {
        return None;
    }
    let tl = tl64 as usize;
    if d4 + 1 + tl != n - 1 {
        return None;
    }
    if s.get_char(d4 + 1 + tl) != ';' {
        return None;
    }
    let content = String::from_str(s.substring_char(d4 + 1, d4 + 1 + tl));
    Some(MessageInfo { user_name: name, user_id: uid, message_content: content, message_id: mid })
}

/// Writing four fields with [`info_blob`] and parsing the writing back gives
/// exactly those fields: the structured-text blob loses nothing.
#[verifier::rlimit(60)]
pub proof fn lemma_blob_round_trip(name: Seq<char>, uid: u64, text: Seq<char>, mid: u64)
    requires
        name.len() <= u64::MAX,
        text.len() <= u64::MAX,
    ensures
        parse_info_spec(info_blob(name, uid, text, mid)) == Some(
            InfoV { user_name: name, user_id: uid, message_content: text, message_id: mid },
        ),
{
    reveal_strlit("uid:");
    reveal_strlit(";mid:");
    reveal_strlit(";name:");
    reveal_strlit(";text:");
    reveal_strlit(":");
    reveal_strlit(";");
    let s = info_blob(name, uid, text, mid);
    let la = dec_str(uid as nat);
    let lb = dec_str(mid as nat);
    let lc = dec_str(name.len());
    let ld = dec_str(text.len());
    lemma_dec_str_digits(uid as nat);
    lemma_dec_str_digits(mid as nat);
    lemma_dec_str_digits(name.len());
    lemma_dec_str_digits(text.len());
    lemma_dec_val_of_dec_str(uid as nat);
    lemma_dec_val_of_dec_str(mid as nat);
    lemma_dec_val_of_dec_str(name.len());
    lemma_dec_val_of_dec_str(text.len());
    let e1 = 4 + la.len() as int;
    let m0 = e1 + 5;
    let e2 = m0 + lb.len();
    let n0 = e2 + 6;
    let e3 = n0 + lc.len();
    let ne = e3 + 1 + name.len();
    let t0 = ne + 6;
    let e4 = t0 + ld.len();
    let te = e4 + 1 + text.len();
    assert(s.len() == te + 1);
    // the literal segments stand where the writing put them
    assert(s.subrange(0, 4) =~= "uid:"@);
    assert(s.subrange(4, e1) =~= la);
    assert(s.subrange(e1, e1 + 5) =~= ";mid:"@);
    assert(s.subrange(m0, e2) =~= lb);
    assert(s.subrange(e2, e2 + 6) =~= ";name:"@);
    assert(s.subrange(n0, e3) =~= lc);
    assert(s[e3] == ':');
    assert(s.subrange(e3 + 1, ne) =~= name);
    assert(s.subrange(ne, ne + 6) =~= ";text:"@);
    assert(s.subrange(t0, e4) =~= ld);
    assert(s[e4] == ':');
    assert(s.subrange(e4 + 1, te) =~= text);
    assert(s[te] == ';');
    // each digit run ends exactly at the delimiter after it
    assert forall|k: int| 4 <= k < e1 implies is_digit(#[trigger] s[k]) by {
        assert(s[k] == s.subrange(4, e1)[k - 4]);
    }
    assert(s[e1] == ';');
    assert(!is_digit(';'));
    lemma_scan_digits_run(s, 4, e1);
    assert forall|k: int| m0 <= k < e2 implies is_digit(#[trigger] s[k]) by {
        assert(s[k] == s.subrange(m0, e2)[k - m0]);
    }
    assert(s[e2] == ';');
    lemma_scan_digits_run(s, m0, e2);
    assert forall|k: int| n0 <= k < e3 implies is_digit(#[trigger] s[k]) by {
        assert(s[k] == s.subrange(n0, e3)[k - n0]);
    }
    assert(!is_digit(':'));
    lemma_scan_digits_run(s, n0, e3);
    assert forall|k: int| t0 <= k < e4 implies is_digit(#[trigger] s[k]) by {
        assert(s[k] == s.subrange(t0, e4)[k - t0]);
    }
    lemma_scan_digits_run(s, t0, e4);
    // the numbers read back as they were written
    assert(dec_val(s.subrange(4, e1)) == uid as nat);
    assert(dec_val(s.subrange(m0, e2)) == mid as nat);
    assert(dec_val(s.subrange(n0, e3)) == name.len());
    assert(dec_val(s.subrange(t0, e4)) == text.len());
    assert(parse_info_spec(s) == Some(
        InfoV { user_name: name, user_id: uid, message_content: text, message_id: mid },
    ));
}

} // verus!
