//! Classification of the static text of a renderer: budgets, control
//! characters, private keywords, locations, addresses and secrets.
use vstd::prelude::*;
use crate::text::{
    utf8, is_digit_byte, is_lower_byte, is_upper_byte, is_alpha_byte, is_alnum_byte, is_hex_byte,
    digit_byte, lower_byte, upper_byte, alnum_byte, hex_byte, contains_sub, contains_bytes,
    is_control_char, control_char, is_whitespace_char, whitespace_char, unicode_lowercase,
    lowercase, unicode_alphanumeric, char_alphanumeric, chars_of, maximal_run, some_run,
    runs_checked, lemma_runs_start, lemma_runs_skip, lemma_runs_close, lemma_runs_done,
    lemma_utf8_len, lemma_utf8_concat, byte_len,
};

verus! {

pub const MAX_RESPONSE_STATIC_TEXT_BYTES: usize = 3_072;

// ---------------------------------------------------------------- secrets

/// Bytes that may occur inside a candidate secret: ASCII alphanumerics and `+ / _ -`.
pub open spec fn is_entropy_byte(b: u8) -> bool {
    is_alnum_byte(b) || b == 0x2b || b == 0x2f || b == 0x5f || b == 0x2d
}

pub open spec fn entropy_class() -> spec_fn(u8) -> bool {
    |b: u8| is_entropy_byte(b)
}

/// A run looks like a secret: at least 24 bytes, and either at least 32
/// hexadecimal digits or a mix of lowercase, uppercase and digits.
pub open spec fn entropy_run(b: Seq<u8>) -> spec_fn(int, int) -> bool {
    |i: int, j: int| j - i >= 24 && (
        (j - i >= 32 && forall|k: int| i <= k < j ==> #[trigger] is_hex_byte(b[k]))
        || ((exists|k: int| i <= k < j && #[trigger] is_lower_byte(b[k]))
            && (exists|k: int| i <= k < j && #[trigger] is_upper_byte(b[k]))
            && (exists|k: int| i <= k < j && #[trigger] is_digit_byte(b[k]))))
}

pub open spec fn contains_high_entropy_run(b: Seq<u8>) -> bool {
    some_run(b, entropy_class(), entropy_run(b))
}

fn entropy_byte(b: u8) -> (r: bool)
    ensures
        r == is_entropy_byte(b),
{
    alnum_byte(b) || b == 0x2b || b == 0x2f || b == 0x5f || b == 0x2d
}

fn contains_high_entropy_run_exec(b: &[u8]) -> (r: bool)
    ensures
        r == contains_high_entropy_run(b@),
{
    let ghost cls = entropy_class();
    let ghost pr = entropy_run(b@);
    let n = b.len();
    let mut in_run = false;
    let mut s: usize = 0;
    let mut all_hex = true;
    let mut lower = false;
    let mut upper = false;
    let mut digit = false;
    let mut p: usize = 0;
    proof {
        lemma_runs_start(b@, cls, pr);
    }
    while p < n
        invariant
            n == b@.len(),
            p <= n,
            s <= p,
            in_run ==> s < p,
            in_run ==> forall|k: int| s <= k < p ==> #[trigger] cls(b@[k]),
            in_run ==> (s == 0 || !cls(b@[s - 1])),
            in_run ==> all_hex == forall|k: int| s <= k < p ==> #[trigger] is_hex_byte(b@[k]),
            in_run ==> lower == exists|k: int| s <= k < p && #[trigger] is_lower_byte(b@[k]),
            in_run ==> upper == exists|k: int| s <= k < p && #[trigger] is_upper_byte(b@[k]),
            in_run ==> digit == exists|k: int| s <= k < p && #[trigger] is_digit_byte(b@[k]),
            in_run ==> runs_checked(b@, cls, pr, s as int),
            !in_run ==> runs_checked(b@, cls, pr, p as int),
            !in_run ==> (p == 0 || !cls(b@[p - 1])),
            cls == entropy_class(),
            pr == entropy_run(b@),
        decreases n - p,
    {
        let x = b[p];
        if entropy_byte(x) {
            if !in_run {
                in_run = true;
                s = p;
                all_hex = hex_byte(x);
                lower = lower_byte(x);
                upper = upper_byte(x);
                digit = digit_byte(x);
            } else {
                all_hex = all_hex && hex_byte(x);
                lower = lower || lower_byte(x);
                upper = upper || upper_byte(x);
                digit = digit || digit_byte(x);
            }
        } else {
            if in_run {
                let len = p - s;
                let ok = len >= 24 && ((len >= 32 && all_hex) || (lower && upper && digit));
                if ok {
                    assert(pr(s as int, p as int));
                    assert(maximal_run(b@, cls, s as int, p as int));
                    return true;
                }
                proof {
                    lemma_runs_close(b@, cls, pr, s as int, p as int);
                }
                in_run = false;
            } else {
                proof {
                    lemma_runs_skip(b@, cls, pr, p as int);
                }
            }
        }
        p = p + 1;
    }
    if in_run {
        let len = n - s;
        let ok = len >= 24 && ((len >= 32 && all_hex) || (lower && upper && digit));
        if ok {
            assert(pr(s as int, n as int));
            assert(maximal_run(b@, cls, s as int, n as int));
            return true;
        }
        proof {
            lemma_runs_close(b@, cls, pr, s as int, n as int);
        }
    }
    proof {
        lemma_runs_done(b@, cls, pr, n as int + 1);
    }
    false
}

// ---------------------------------------------------------------- windows paths

/// A drive letter path (`C:\` or `C:/`) or a doubled backslash.
pub open spec fn contains_windows_path(b: Seq<u8>) -> bool {
    (exists|i: int| 0 <= i && i + 3 <= b.len() && #[trigger] is_alpha_byte(b[i]) && b[i + 1] == 0x3a
        && (b[i + 2] == 0x5c || b[i + 2] == 0x2f))
    || contains_sub(b, seq![0x5cu8, 0x5cu8])
}

fn contains_windows_path_exec(b: &[u8]) -> (r: bool)
    ensures
        r == contains_windows_path(b@),
{
    let n = b.len();
    let mut i: usize = 0;
    let mut found = false;
    while n >= 3 && i <= n - 3
        invariant
            n == b@.len(),
            found == exists|k: int| 0 <= k < i && k + 3 <= n && #[trigger] is_alpha_byte(b@[k]) && b@[k + 1] == 0x3a
                && (b@[k + 2] == 0x5c || b@[k + 2] == 0x2f),
            i <= n,
            n >= 3 ==> i <= n - 2,
        decreases n - i,
    {
        let hit = (lower_byte(b[i]) || upper_byte(b[i])) && b[i + 1] == 0x3a && (b[i + 2] == 0x5c || b[i + 2] == 0x2f);
        proof {
            if hit {
                assert(is_alpha_byte(b@[i as int]));
            }
            if !hit && !found {
                assert forall|k: int| 0 <= k < i + 1 && k + 3 <= n && #[trigger] is_alpha_byte(b@[k]) && b@[k + 1] == 0x3a
                    implies !(b@[k + 2] == 0x5c || b@[k + 2] == 0x2f) by {}
            }
        }
        if hit {
            found = true;
        }
        i = i + 1;
    }
    proof {
        if !found {
            assert forall|k: int| 0 <= k && k + 3 <= n && #[trigger] is_alpha_byte(b@[k]) && b@[k + 1] == 0x3a
                implies !(b@[k + 2] == 0x5c || b@[k + 2] == 0x2f) by {
                assert(k < i);
            }
        }
    }
    let pair: [u8; 2] = [0x5c, 0x5c];
    assert(pair@ =~= seq![0x5cu8, 0x5cu8]);
    found || contains_bytes(b, &pair)
}

// ---------------------------------------------------------------- phone numbers

pub open spec fn is_ascii_digit_char(c: char) -> bool {
    '0' <= c && c <= '9'
}

/// One step of the phone-number scanner: digits seen, span covered, found.
pub open spec fn phone_step(st: (nat, nat, bool), x: char) -> (nat, nat, bool) {
    if st.2 {
        st
    } else if is_ascii_digit_char(x) {
        ((st.0 + 1) as nat, (st.1 + 1) as nat, false)
    } else if (x == '+' || x == '-' || x == '(' || x == ')' || x == ' ') && st.0 > 0 {
        (st.0, (st.1 + 1) as nat, false)
    } else if st.0 >= 7 && st.1 <= 24 {
        (st.0, st.1, true)
    } else {
        (0, 0, false)
    }
}

pub open spec fn phone_scan(c: Seq<char>) -> (nat, nat, bool)
    decreases c.len(),
{
    if c.len() == 0 {
        (0, 0, false)
    } else {
        phone_step(phone_scan(c.drop_last()), c.last())
    }
}

/// Seven or more digits spread over at most 24 characters of digits and
/// `+ - ( )` or spaces, with the text followed by one trailing space.
pub open spec fn contains_phone_like(c: Seq<char>) -> bool {
    phone_scan(c.push(' ')).2
}

fn phone_step_exec(digits: usize, span: usize, found: bool, x: char) -> (r: (usize, usize, bool))
    requires
        digits < usize::MAX,
        span < usize::MAX,
    ensures
        (r.0 as nat, r.1 as nat, r.2) == phone_step((digits as nat, span as nat, found), x),
        r.0 <= digits + 1,
        r.1 <= span + 1,
{
    if found {
        (digits, span, found)
    } else if '0' <= x && x <= '9' {
        (digits + 1, span + 1, false)
    } else if (x == '+' || x == '-' || x == '(' || x == ')' || x == ' ') && digits > 0 {
        (digits, span + 1, false)
    } else if digits >= 7 && span <= 24 {
        (digits, span, true)
    } else {
        (0, 0, false)
    }
}

fn contains_phone_like_exec(c: &Vec<char>) -> (r: bool)
    requires
        c@.len() < 0x1000_0000,
    ensures
        r == contains_phone_like(c@),
{
    let n = c.len();
    let mut digits: usize = 0;
    let mut span: usize = 0;
    let mut found = false;
    let mut i: usize = 0;
    while i < n
        invariant
            n == c@.len(),
            n < 0x1000_0000,
            i <= n,
            digits <= i,
            span <= i,
            (digits as nat, span as nat, found) == phone_scan(c@.take(i as int)),
        decreases n - i,
    {
        let st = phone_step_exec(digits, span, found, c[i]);
        assert(c@.take(i + 1).drop_last() =~= c@.take(i as int));
        digits = st.0;
        span = st.1;
        found = st.2;
        i = i + 1;
    }
    let st = phone_step_exec(digits, span, found, ' ');
    assert(c@.take(n as int) =~= c@);
    assert(c@.push(' ').drop_last() =~= c@);
    st.2
}

// ---------------------------------------------------------------- e-mail addresses

/// Characters that survive trimming a word: alphanumerics and `@ . _ - +`.
pub open spec fn is_mail_char(c: char) -> bool {
    unicode_alphanumeric(c) || c == '@' || c == '.' || c == '_' || c == '-' || c == '+'
}

pub open spec fn word_class() -> spec_fn(char) -> bool {
    |c: char| !is_whitespace_char(c)
}

/// The trimmed word `[i, j)` reads `local@domain` with a non-empty local part
/// and a domain that contains a dot and does not end with one.
pub open spec fn email_word(c: Seq<char>) -> spec_fn(int, int) -> bool {
    |i: int, j: int| exists|t: int| #![trigger c[t]] i <= t < j && c[t] == '@'
        && (forall|u: int| i <= u < t ==> #[trigger] c[u] != '@')
        && (exists|k: int| i <= k < t && #[trigger] is_mail_char(c[k]))
        && (exists|k: int| t < k < j && #[trigger] c[k] == '.')
        && (exists|m: int| i <= m < j && #[trigger] is_mail_char(c[m]) && c[m] != '.'
            && forall|v: int| m < v < j ==> !#[trigger] is_mail_char(c[v]))
}

/// Some whitespace-separated word is shaped like an e-mail address.
pub open spec fn contains_email_like(c: Seq<char>) -> bool {
    some_run(c, word_class(), email_word(c))
}

fn mail_char(c: char) -> (r: bool)
    ensures
        r == is_mail_char(c),
{
    char_alphanumeric(c) || c == '@' || c == '.' || c == '_' || c == '-' || c == '+'
}

fn email_word_exec(c: &Vec<char>, i: usize, j: usize) -> (r: bool)
    requires
        i < j <= c@.len(),
    ensures
        r == email_word(c@)(i as int, j as int),
{
    let mut t = i;
    while t < j && c[t] != '@'
        invariant
            i <= t <= j,
            j <= c@.len(),
            forall|u: int| i <= u < t ==> #[trigger] c@[u] != '@',
        decreases j - t,
    {
        t = t + 1;
    }
    if t == j {
        proof {
            assert forall|t2: int| i <= t2 < j && #[trigger] c@[t2] == '@' implies false by {}
        }
        return false;
    }
    let mut k = i;
    let mut local = false;
    while k < t
        invariant
            i <= k <= t,
            t < j <= c@.len(),
            local == exists|q: int| i <= q < k && #[trigger] is_mail_char(c@[q]),
        decreases t - k,
    {
        if mail_char(c[k]) {
            local = true;
        }
        k = k + 1;
    }
    let mut d = t + 1;
    let mut dot = false;
    while d < j
        invariant
            t < d <= j,
            j <= c@.len(),
            dot == exists|q: int| t < q < d && #[trigger] c@[q] == '.',
        decreases j - d,
    {
        if c[d] == '.' {
            dot = true;
        }
        d = d + 1;
    }
    // The last character kept by trimming.
    let mut m = j;
    while m > i && !mail_char(c[m - 1])
        invariant
            i <= m <= j,
            j <= c@.len(),
            forall|v: int| m <= v < j ==> !#[trigger] is_mail_char(c@[v]),
        decreases m,
    {
        m = m - 1;
    }
    // `c[t]` is '@', a kept character, so some kept character exists.
    assert(m > t) by {
        if m <= t {
            assert(is_mail_char(c@[t as int]));
        }
    }
    let tail_ok = c[m - 1] != '.';
    let r = local && dot && tail_ok;
    proof {
        let p = email_word(c@);
        if r {
            assert(is_mail_char(c@[m - 1]));
            assert(c@[t as int] == '@');
        } else {
            assert forall|t2: int| #![trigger c@[t2]] i <= t2 < j && c@[t2] == '@'
                && (forall|u: int| i <= u < t2 ==> #[trigger] c@[u] != '@')
                && (exists|q: int| i <= q < t2 && #[trigger] is_mail_char(c@[q]))
                && (exists|q: int| t2 < q < j && #[trigger] c@[q] == '.')
                implies !(exists|m2: int| i <= m2 < j && #[trigger] is_mail_char(c@[m2]) && c@[m2] != '.'
                    && forall|v: int| m2 < v < j ==> !#[trigger] is_mail_char(c@[v])) by {
                if t2 < t {
                    assert(c@[t2] != '@');
                }
                if t2 > t {
                    assert(c@[t as int] != '@');
                }
                assert(t2 == t);
                assert(is_mail_char(c@[m - 1]));
                assert forall|m2: int| i <= m2 < j && #[trigger] is_mail_char(c@[m2]) && c@[m2] != '.'
                    implies !(forall|v: int| m2 < v < j ==> !#[trigger] is_mail_char(c@[v])) by {
                    if m2 < m - 1 {
                        assert(is_mail_char(c@[m - 1]));
                    } else if m2 >= m {
                    } else {
                        assert(m2 == m - 1);
                    }
                }
            }
        }
    }
    r
}

fn contains_email_like_exec(c: &Vec<char>) -> (r: bool)
    ensures
        r == contains_email_like(c@),
{
    let ghost cls = word_class();
    let ghost pr = email_word(c@);
    let n = c.len();
    let mut in_run = false;
    let mut s: usize = 0;
    let mut p: usize = 0;
    proof {
        lemma_runs_start(c@, cls, pr);
    }
    while p < n
        invariant
            n == c@.len(),
            p <= n,
            s <= p,
            in_run ==> s < p,
            in_run ==> forall|k: int| s <= k < p ==> #[trigger] cls(c@[k]),
            in_run ==> (s == 0 || !cls(c@[s - 1])),
            in_run ==> runs_checked(c@, cls, pr, s as int),
            !in_run ==> runs_checked(c@, cls, pr, p as int),
            !in_run ==> (p == 0 || !cls(c@[p - 1])),
            cls == word_class(),
            pr == email_word(c@),
        decreases n - p,
    {
        let x = c[p];
        if !whitespace_char(x) {
            if !in_run {
                in_run = true;
                s = p;
            }
        } else {
            if in_run {
                if email_word_exec(c, s, p) {
                    assert(maximal_run(c@, cls, s as int, p as int));
                    return true;
                }
                proof {
                    lemma_runs_close(c@, cls, pr, s as int, p as int);
                }
                in_run = false;
            } else {
                proof {
                    lemma_runs_skip(c@, cls, pr, p as int);
                }
            }
        }
        p = p + 1;
    }
    if in_run {
        if email_word_exec(c, s, n) {
            assert(maximal_run(c@, cls, s as int, n as int));
            return true;
        }
        proof {
            lemma_runs_close(c@, cls, pr, s as int, n as int);
        }
    }
    proof {
        lemma_runs_done(c@, cls, pr, n as int + 1);
    }
    false
}

} // verus!

verus! {

/// Private or personal keywords, matched in the lowercase text.
pub open spec fn sensitive_keyword_hit(lower: Seq<u8>) -> bool {
    contains_sub(lower, utf8("authorization"@)) || contains_sub(lower, utf8("bearer "@))
    || contains_sub(lower, utf8("credential"@)) || contains_sub(lower, utf8("password"@))
    || contains_sub(lower, utf8("passwd"@)) || contains_sub(lower, utf8("secret"@))
    || contains_sub(lower, utf8("api_key"@)) || contains_sub(lower, utf8("api-key"@))
    || contains_sub(lower, utf8("apikey"@)) || contains_sub(lower, utf8("private_key"@))
    || contains_sub(lower, utf8("private-key"@)) || contains_sub(lower, utf8("privatekey"@))
    || contains_sub(lower, utf8("cookie"@)) || contains_sub(lower, utf8("token"@))
    || contains_sub(lower, utf8("customer "@)) || contains_sub(lower, utf8("client "@))
    || contains_sub(lower, utf8("phone "@)) || contains_sub(lower, utf8("address "@))
    || contains_sub(lower, utf8("клиент "@)) || contains_sub(lower, utf8("телефон "@))
    || contains_sub(lower, utf8("адрес "@)) || contains_sub(lower, utf8("улица "@))
    || contains_sub(lower, utf8("проспект "@))
}

pub open spec fn url_hit(lower: Seq<u8>) -> bool {
    contains_sub(lower, utf8("http://"@)) || contains_sub(lower, utf8("https://"@))
    || contains_sub(lower, utf8("www."@))
}

pub open spec fn unix_path_hit(lower: Seq<u8>) -> bool {
    contains_sub(lower, utf8("/home/"@)) || contains_sub(lower, utf8("/etc/"@))
    || contains_sub(lower, utf8("/var/"@)) || contains_sub(lower, utf8("/opt/"@))
    || contains_sub(lower, utf8("/root/"@)) || contains_sub(lower, utf8("/tmp/"@))
}

/// Why the static text `prefix ++ suffix` of a renderer is refused, or `None`.
pub open spec fn spec_static_text_rejection(prefix: Seq<char>, suffix: Seq<char>) -> Option<&'static str> {
    let combined = prefix + suffix;
    let lower = utf8(unicode_lowercase(combined));
    if utf8(prefix).len() + utf8(suffix).len() > MAX_RESPONSE_STATIC_TEXT_BYTES {
        Some("byte_budget")
    } else if exists|i: int| 0 <= i < combined.len() && #[trigger] is_control_char(combined[i]) && combined[i] != '\n' {
        Some("control_character")
    } else if sensitive_keyword_hit(lower) {
        Some("sensitive_keyword")
    } else if url_hit(lower) {
        Some("url")
    } else if unix_path_hit(lower) {
        Some("unix_path")
    } else if contains_email_like(combined) {
        Some("email")
    } else if contains_windows_path(utf8(combined)) {
        Some("windows_path")
    } else if contains_high_entropy_run(utf8(combined)) {
        Some("high_entropy")
    } else if contains_phone_like(combined) {
        Some("phone")
    } else {
        None
    }
}

fn sensitive_keyword_exec(lower: &[u8]) -> (r: bool)
    ensures
        r == sensitive_keyword_hit(lower@),
{
    contains_bytes(lower, "authorization".as_bytes()) || contains_bytes(lower, "bearer ".as_bytes())
    || contains_bytes(lower, "credential".as_bytes()) || contains_bytes(lower, "password".as_bytes())
    || contains_bytes(lower, "passwd".as_bytes()) || contains_bytes(lower, "secret".as_bytes())
    || contains_bytes(lower, "api_key".as_bytes()) || contains_bytes(lower, "api-key".as_bytes())
    || contains_bytes(lower, "apikey".as_bytes()) || contains_bytes(lower, "private_key".as_bytes())
    || contains_bytes(lower, "private-key".as_bytes()) || contains_bytes(lower, "privatekey".as_bytes())
    || contains_bytes(lower, "cookie".as_bytes()) || contains_bytes(lower, "token".as_bytes())
    || contains_bytes(lower, "customer ".as_bytes()) || contains_bytes(lower, "client ".as_bytes())
    || contains_bytes(lower, "phone ".as_bytes()) || contains_bytes(lower, "address ".as_bytes())
    || contains_bytes(lower, "клиент ".as_bytes()) || contains_bytes(lower, "телефон ".as_bytes())
    || contains_bytes(lower, "адрес ".as_bytes()) || contains_bytes(lower, "улица ".as_bytes())
    || contains_bytes(lower, "проспект ".as_bytes())
}

fn url_exec(lower: &[u8]) -> (r: bool)
    ensures
        r == url_hit(lower@),
{
    contains_bytes(lower, "http://".as_bytes()) || contains_bytes(lower, "https://".as_bytes())
    || contains_bytes(lower, "www.".as_bytes())
}

fn unix_path_exec(lower: &[u8]) -> (r: bool)
    ensures
        r == unix_path_hit(lower@),
{
    contains_bytes(lower, "/home/".as_bytes()) || contains_bytes(lower, "/etc/".as_bytes())
    || contains_bytes(lower, "/var/".as_bytes()) || contains_bytes(lower, "/opt/".as_bytes())
    || contains_bytes(lower, "/root/".as_bytes()) || contains_bytes(lower, "/tmp/".as_bytes())
}

fn any_control(c: &Vec<char>) -> (r: bool)
    ensures
        r == exists|i: int| 0 <= i < c@.len() && #[trigger] is_control_char(c@[i]) && c@[i] != '\n',
{
    let mut i: usize = 0;
    while i < c.len()
        invariant
            i <= c@.len(),
            forall|k: int| 0 <= k < i ==> !(#[trigger] is_control_char(c@[k]) && c@[k] != '\n'),
        decreases c@.len() - i,
    {
        if control_char(c[i]) && c[i] != '\n' {
            return true;
        }
        i = i + 1;
    }
    false
}

/// Classifies why static renderer text cannot enter an operator package.
///
/// This function inspects only the bounded static frame. Dynamic role values
/// are checked separately by the learner before any transfer proof is sealed.
pub fn collection_static_text_rejection_reason(prefix: &str, suffix: &str) -> (r: Option<&'static str>)
    ensures
        r == spec_static_text_rejection(prefix@, suffix@),
{
    let plen = byte_len(prefix);
    let slen = byte_len(suffix);
    if plen > MAX_RESPONSE_STATIC_TEXT_BYTES || slen > MAX_RESPONSE_STATIC_TEXT_BYTES
        || plen + slen > MAX_RESPONSE_STATIC_TEXT_BYTES {
        return Some("byte_budget");
    }
    let mut combined = prefix.to_owned();
    combined.append(suffix);
    let ghost comb = prefix@ + suffix@;
    assert(combined@ == comb);
    proof {
        lemma_utf8_concat(prefix@, suffix@);
        lemma_utf8_len(comb);
    }
    let chars = chars_of(combined.as_str());
    assert(chars@ == comb);
    assert(!(utf8(prefix@).len() + utf8(suffix@).len() > MAX_RESPONSE_STATIC_TEXT_BYTES));
    if any_control(&chars) {
        assert(exists|i: int| 0 <= i < comb.len() && #[trigger] is_control_char(comb[i]) && comb[i] != '\n');
        return Some("control_character");
    }
    let lower = lowercase(combined.as_str());
    let lower_bytes = lower.as_str().as_bytes();
    if sensitive_keyword_exec(lower_bytes) {
        return Some("sensitive_keyword");
    }
    if url_exec(lower_bytes) {
        return Some("url");
    }
    if unix_path_exec(lower_bytes) {
        return Some("unix_path");
    }
    if contains_email_like_exec(&chars) {
        return Some("email");
    }
    let bytes = combined.as_str().as_bytes();
    if contains_windows_path_exec(bytes) {
        return Some("windows_path");
    }
    if contains_high_entropy_run_exec(bytes) {
        return Some("high_entropy");
    }
    if contains_phone_like_exec(&chars) {
        return Some("phone");
    }
    None
}

/// The static text is acceptable.
pub open spec fn safe_static_text(prefix: Seq<char>, suffix: Seq<char>) -> bool {
    spec_static_text_rejection(prefix, suffix) is None
}

pub fn safe_collection_renderer(prefix: &str, suffix: &str) -> (r: bool)
    ensures
        r == safe_static_text(prefix@, suffix@),
{
    collection_static_text_rejection_reason(prefix, suffix).is_none()
}

} // verus!
