use vstd::prelude::*;
use vstd::string::StrSliceExecFns;
use vstd::string::StringExecFns;

verus! {

broadcast use vstd::string::group_string_axioms;

// ---------------------------------------------------------------------------
// Character classes
// ---------------------------------------------------------------------------

/// Unicode `White_Space`: the characters that `char::is_whitespace` accepts,
/// and so the ones that `str::trim` strips and `str::split_whitespace` splits on.
pub open spec fn is_white_space(c: char) -> bool {
    let u = c as u32;
    ||| 0x09 <= u <= 0x0D
    ||| u == 0x20
    ||| u == 0x85
    ||| u == 0xA0
    ||| u == 0x1680
    ||| 0x2000 <= u <= 0x200A
    ||| u == 0x2028
    ||| u == 0x2029
    ||| u == 0x202F
    ||| u == 0x205F
    ||| u == 0x3000
}

/// Unicode general category `Cc`: the characters that `char::is_control` accepts.
pub open spec fn is_control_char(c: char) -> bool {
    let u = c as u32;
    u <= 0x1F || (0x7F <= u && u <= 0x9F)
}

/// Whether `c` is Unicode whitespace.
pub fn white_space(c: char) -> (r: bool)
    ensures
        r == is_white_space(c),
{
    let u = c as u32;
    (0x09 <= u && u <= 0x0D) || u == 0x20 || u == 0x85 || u == 0xA0 || u == 0x1680 || (0x2000
        <= u && u <= 0x200A) || u == 0x2028 || u == 0x2029 || u == 0x202F || u == 0x205F || u
        == 0x3000
}

/// Whether `c` is a control character.
pub fn control_char(c: char) -> (r: bool)
    ensures
        r == is_control_char(c),
{
    let u = c as u32;
    u <= 0x1F || (0x7F <= u && u <= 0x9F)
}

/// The characters of `s`, in order.
pub fn chars_of(s: &str) -> (chars: Vec<char>)
    ensures
        chars@ == s@,
{
    let mut chars: Vec<char> = Vec::new();
    for c in it: s.chars()
        invariant
            it.seq() == s@,
            chars@ == it.seq().take(it.index()),
    {
        chars.push(c);
        assert(chars@ == it.seq().take(it.index() + 1));
    }
    chars
}

// ---------------------------------------------------------------------------
// Blank text and trimming
// ---------------------------------------------------------------------------

/// Every character of `s` is whitespace (true of the empty text).
pub open spec fn is_blank(s: Seq<char>) -> bool {
    forall|i: int| 0 <= i < s.len() ==> is_white_space(#[trigger] s[i])
}

/// Number of whitespace characters at the start of `s`.
pub open spec fn leading_blanks(s: Seq<char>) -> nat
    decreases s.len(),
{
    if s.len() == 0 || !is_white_space(s[0]) {
        0
    } else {
        1 + leading_blanks(s.drop_first())
    }
}

/// Number of whitespace characters at the end of `s`.
pub open spec fn trailing_blanks(s: Seq<char>) -> nat
    decreases s.len(),
{
    if s.len() == 0 || !is_white_space(s.last()) {
        0
    } else {
        1 + trailing_blanks(s.drop_last())
    }
}

/// `s` without its leading and trailing whitespace, as `str::trim` gives it.
pub open spec fn trimmed(s: Seq<char>) -> Seq<char> {
    if leading_blanks(s) == s.len() {
        Seq::empty()
    } else {
        s.subrange(leading_blanks(s) as int, s.len() - trailing_blanks(s))
    }
}

proof fn lemma_leading_blanks_step(s: Seq<char>, i: int)
    requires
        0 <= i < s.len(),
    ensures
        s.subrange(i, s.len() as int).drop_first() == s.subrange(i + 1, s.len() as int),
        s.subrange(i, s.len() as int)[0] == s[i],
{
    assert(s.subrange(i, s.len() as int).drop_first() =~= s.subrange(i + 1, s.len() as int));
}

proof fn lemma_trailing_blanks_step(s: Seq<char>, j: int)
    requires
        0 < j <= s.len(),
    ensures
        s.subrange(0, j).drop_last() == s.subrange(0, j - 1),
        s.subrange(0, j).last() == s[j - 1],
{
    assert(s.subrange(0, j).drop_last() =~= s.subrange(0, j - 1));
}

/// The leading blanks are blank, and the next character, if any, is not.
pub proof fn lemma_leading_blanks(s: Seq<char>)
    ensures
        leading_blanks(s) <= s.len(),
        forall|k: int| 0 <= k < leading_blanks(s) ==> is_white_space(#[trigger] s[k]),
        leading_blanks(s) < s.len() ==> !is_white_space(s[leading_blanks(s) as int]),
    decreases s.len(),
{
    if s.len() > 0 && is_white_space(s[0]) {
        lemma_leading_blanks(s.drop_first());
        assert forall|k: int| 0 <= k < leading_blanks(s) implies is_white_space(#[trigger] s[k]) by {
            if k > 0 {
                assert(s[k] == s.drop_first()[k - 1]);
            }
        }
    }
}

/// The trailing blanks are blank, and the character before them, if any, is not.
pub proof fn lemma_trailing_blanks(s: Seq<char>)
    ensures
        trailing_blanks(s) <= s.len(),
        forall|k: int|
            s.len() - trailing_blanks(s) <= k < s.len() ==> is_white_space(#[trigger] s[k]),
        trailing_blanks(s) < s.len() ==> !is_white_space(s[s.len() - trailing_blanks(s) - 1]),
    decreases s.len(),
{
    if s.len() > 0 && is_white_space(s.last()) {
        lemma_trailing_blanks(s.drop_last());
        assert forall|k: int|
            s.len() - trailing_blanks(s) <= k < s.len() implies is_white_space(#[trigger] s[k]) by {
            if k < s.len() - 1 {
                assert(s[k] == s.drop_last()[k]);
            }
        }
    }
}

/// A text is blank exactly when trimming leaves nothing of it.
pub proof fn lemma_trimmed_empty_iff_blank(s: Seq<char>)
    ensures
        (trimmed(s).len() == 0) == is_blank(s),
        is_blank(s) == (leading_blanks(s) == s.len()),
{
    lemma_leading_blanks(s);
    lemma_trailing_blanks(s);
    if leading_blanks(s) < s.len() {
        assert(!is_white_space(s[leading_blanks(s) as int]));
        assert(trailing_blanks(s) < s.len() - leading_blanks(s)) by {
            if trailing_blanks(s) >= s.len() - leading_blanks(s) {
                assert(is_white_space(s[leading_blanks(s) as int]));
            }
        }
    }
}

/// Trimming cuts whitespace only, from both ends, and all of it: what is
/// left is a contiguous part of the text with whitespace only before and
/// after it, and it neither begins nor ends with whitespace.
pub proof fn lemma_trimmed_shape(s: Seq<char>)
    ensures
        trimmed(s).len() > 0 ==> !is_white_space(trimmed(s)[0]) && !is_white_space(
            trimmed(s).last(),
        ),
        exists|a: int|
            0 <= a && a + trimmed(s).len() <= s.len() && trimmed(s) == s.subrange(
                a,
                a + trimmed(s).len(),
            ) && is_blank(s.take(a)) && is_blank(s.skip(a + trimmed(s).len())),
{
    lemma_leading_blanks(s);
    lemma_trailing_blanks(s);
    lemma_trimmed_empty_iff_blank(s);
    let a = leading_blanks(s) as int;
    if a == s.len() {
        assert(trimmed(s) =~= s.subrange(a, a));
        assert(is_blank(s.take(a))) by {
            assert forall|i: int| 0 <= i < s.take(a).len() implies is_white_space(
                #[trigger] s.take(a)[i],
            ) by {
                assert(s.take(a)[i] == s[i]);
            }
        }
        assert(s.skip(a).len() == 0);
    } else {
        let b = s.len() - trailing_blanks(s);
        assert(a < b) by {
            if a >= b {
                assert(is_white_space(s[a]));
            }
        }
        assert(trimmed(s) == s.subrange(a, b));
        assert(trimmed(s)[0] == s[a]);
        assert(trimmed(s).last() == s[b - 1]);
        assert(is_blank(s.take(a))) by {
            assert forall|i: int| 0 <= i < s.take(a).len() implies is_white_space(
                #[trigger] s.take(a)[i],
            ) by {
                assert(s.take(a)[i] == s[i]);
            }
        }
        assert(is_blank(s.skip(b))) by {
            assert forall|i: int| 0 <= i < s.skip(b).len() implies is_white_space(
                #[trigger] s.skip(b)[i],
            ) by {
                assert(s.skip(b)[i] == s[b + i]);
            }
        }
        assert(a + trimmed(s).len() == b);
    }
}

/// Number of leading whitespace characters of `chars`.
fn count_leading_blanks(chars: &Vec<char>) -> (n: usize)
    ensures
        n == leading_blanks(chars@),
{
    let mut i: usize = 0;
    assert(chars@.subrange(0, chars@.len() as int) =~= chars@);
    while i < chars.len() && white_space(chars[i])
        invariant
            i <= chars@.len(),
            leading_blanks(chars@) == i + leading_blanks(chars@.subrange(i as int, chars@.len() as int)),
        decreases chars@.len() - i,
    {
        proof {
            lemma_leading_blanks_step(chars@, i as int);
        }
        i = i + 1;
    }
    proof {
        if i < chars.len() {
            lemma_leading_blanks_step(chars@, i as int);
        }
    }
    i
}

/// Number of trailing whitespace characters of `chars`.
fn count_trailing_blanks(chars: &Vec<char>) -> (n: usize)
    ensures
        n == trailing_blanks(chars@),
{
    let mut j: usize = chars.len();
    assert(chars@.subrange(0, chars@.len() as int) =~= chars@);
    while j > 0 && white_space(chars[j - 1])
        invariant
            j <= chars@.len(),
            trailing_blanks(chars@) == (chars@.len() - j) + trailing_blanks(chars@.subrange(0, j as int)),
        decreases j,
    {
        proof {
            lemma_trailing_blanks_step(chars@, j as int);
        }
        j = j - 1;
    }
    proof {
        if j > 0 {
            lemma_trailing_blanks_step(chars@, j as int);
        }
    }
    chars.len() - j
}

/// `s` with leading and trailing whitespace removed (`str::trim`).
pub fn trim_text(s: &str) -> (t: String)
    ensures
        t@ == trimmed(s@),
{
    let chars = chars_of(s);
    let a = count_leading_blanks(&chars);
    if a == chars.len() {
        return String::new();
    }
    let b = count_trailing_blanks(&chars);
    proof {
        lemma_trimmed_empty_iff_blank(s@);
        lemma_leading_blanks(s@);
        lemma_trailing_blanks(s@);
        assert(a + b < chars@.len()) by {
            if a + b >= chars@.len() {
                assert(is_white_space(s@[a as int]));
            }
        }
    }
    let sub = s.substring_char(a, chars.len() - b);
    String::from_str(sub)
}

/// Whether `s` is blank (`s.trim().is_empty()`).
pub fn blank_text(s: &str) -> (r: bool)
    ensures
        r == is_blank(s@),
        r == (trimmed(s@).len() == 0),
{
    let chars = chars_of(s);
    let a = count_leading_blanks(&chars);
    proof {
        lemma_trimmed_empty_iff_blank(s@);
    }
    a == chars.len()
}

// ---------------------------------------------------------------------------
// Words and token estimates
// ---------------------------------------------------------------------------

/// Whether a word of `s` begins at index `i`.
pub open spec fn starts_word(s: Seq<char>, i: int) -> bool {
    &&& 0 <= i < s.len()
    &&& !is_white_space(s[i])
    &&& (i == 0 || is_white_space(s[i - 1]))
}

/// Number of maximal whitespace-free runs in `s`: the count of
/// `str::split_whitespace`.
pub open spec fn word_count(s: Seq<char>) -> nat
    decreases s.len(),
{
    if s.len() == 0 {
        0
    } else {
        word_count(s.drop_last()) + if starts_word(s, s.len() - 1) {
            1nat
        } else {
            0nat
        }
    }
}

/// A text with no word is blank.
pub proof fn lemma_no_words_blank(s: Seq<char>)
    requires
        word_count(s) == 0,
    ensures
        is_blank(s),
    decreases s.len(),
{
    if s.len() > 0 {
        lemma_no_words_blank(s.drop_last());
        assert forall|i: int| 0 <= i < s.len() implies is_white_space(#[trigger] s[i]) by {
            if i < s.len() - 1 {
                assert(s[i] == s.drop_last()[i]);
            } else {
                if s.len() > 1 {
                    assert(is_white_space(s.drop_last()[s.len() - 2]));
                }
            }
        }
    }
}

/// A text that is not blank has a word: the first character that is not
/// whitespace starts one.
pub proof fn lemma_not_blank_has_words(s: Seq<char>)
    requires
        !is_blank(s),
    ensures
        word_count(s) > 0,
    decreases s.len(),
{
    if is_blank(s.drop_last()) {
        assert(!is_white_space(s.last())) by {
            let i = choose|i: int| 0 <= i < s.len() && !is_white_space(#[trigger] s[i]);
            if i < s.len() - 1 {
                assert(s.drop_last()[i] == s[i]);
            }
        }
        if s.len() > 1 {
            assert(is_white_space(s.drop_last()[s.len() - 2]));
        }
        assert(starts_word(s, s.len() - 1));
    } else {
        lemma_not_blank_has_words(s.drop_last());
    }
}

/// Ceiling of `n / 4`.
pub open spec fn quarter_up(n: nat) -> nat {
    if n % 4 == 0 {
        n / 4
    } else {
        n / 4 + 1
    }
}

/// Estimated output tokens of a text: its word count, or for a text without
/// words a quarter of its characters, rounded up.
pub open spec fn estimated_tokens(s: Seq<char>) -> nat {
    if word_count(s) > 0 {
        word_count(s)
    } else if s.len() == 0 {
        0
    } else {
        quarter_up(s.len())
    }
}

/// Number of words of `chars`.
fn count_words(chars: &Vec<char>) -> (n: u64)
    ensures
        n == word_count(chars@),
        n <= chars@.len(),
{
    let mut n: u64 = 0;
    let mut i: usize = 0;
    while i < chars.len()
        invariant
            i <= chars@.len(),
            n == word_count(chars@.take(i as int)),
            n <= i,
        decreases chars@.len() - i,
    {
        let starts = !white_space(chars[i]) && (i == 0 || white_space(chars[i - 1]));
        proof {
            let p = chars@.take(i as int + 1);
            assert(p.drop_last() =~= chars@.take(i as int));
            assert(starts == starts_word(p, i as int));
        }
        if starts {
            n = n + 1;
        }
        i = i + 1;
    }
    assert(chars@.take(chars@.len() as int) =~= chars@);
    n
}

/// Estimate of the number of output tokens in `output`.
pub fn estimate_output_tokens(output: &str) -> (n: u64)
    ensures
        n == estimated_tokens(output@),
        (n == 0) == (output@.len() == 0),
{
    let chars = chars_of(output);
    let words = count_words(&chars);
    if words > 0 {
        words
    } else if chars.len() == 0 {
        0
    } else {
        let len = chars.len() as u64;
        if len % 4 == 0 {
            len / 4
        } else {
            len / 4 + 1
        }
    }
}

// ---------------------------------------------------------------------------
// Prefixes and concatenation
// ---------------------------------------------------------------------------

/// The first `n` characters of `s`, or all of them where `s` is shorter
/// (`s.chars().take(n)`).
pub open spec fn char_prefix(s: Seq<char>, n: nat) -> Seq<char> {
    if s.len() <= n {
        s
    } else {
        s.take(n as int)
    }
}

/// The first `n` characters of `s`.
pub fn first_chars(s: &str, n: usize) -> (t: String)
    ensures
        t@ == char_prefix(s@, n as nat),
{
    let len = s.unicode_len();
    let k = if len <= n {
        len
    } else {
        n
    };
    let sub = s.substring_char(0, k);
    proof {
        if len <= n {
            assert(s@.subrange(0, k as int) =~= s@);
        }
    }
    String::from_str(sub)
}

/// The concatenation of `parts`.
pub open spec fn concat_all(parts: Seq<Seq<char>>) -> Seq<char>
    decreases parts.len(),
{
    if parts.len() == 0 {
        Seq::empty()
    } else {
        concat_all(parts.drop_last()) + parts.last()
    }
}

/// `a` followed by `b`.
pub fn join2(a: &str, b: &str) -> (t: String)
    ensures
        t@ == a@ + b@,
{
    let mut t = String::from_str(a);
    t.append(b);
    t
}

/// `a`, `b` and `c` in turn.
pub fn join3(a: &str, b: &str, c: &str) -> (t: String)
    ensures
        t@ == a@ + b@ + c@,
{
    let mut t = String::from_str(a);
    t.append(b);
    t.append(c);
    t
}

/// `a`, `b`, `c` and `d` in turn.
pub fn join4(a: &str, b: &str, c: &str, d: &str) -> (t: String)
    ensures
        t@ == a@ + b@ + c@ + d@,
{
    let mut t = String::from_str(a);
    t.append(b);
    t.append(c);
    t.append(d);
    t
}


// ---------------------------------------------------------------------------
// Decimal numbers
// ---------------------------------------------------------------------------

/// The character of a decimal digit.
pub open spec fn digit_char(d: nat) -> char {
    if d == 0 {
        '0'
    } else if d == 1 {
        '1'
    } else if d == 2 {
        '2'
    } else if d == 3 {
        '3'
    } else if d == 4 {
        '4'
    } else if d == 5 {
        '5'
    } else if d == 6 {
        '6'
    } else if d == 7 {
        '7'
    } else if d == 8 {
        '8'
    } else {
        '9'
    }
}

/// The decimal digits of `n`, most significant first, without leading zeros.
pub open spec fn nat_decimal(n: nat) -> Seq<char>
    decreases n,
{
    if n < 10 {
        seq![digit_char(n)]
    } else {
        nat_decimal(n / 10).push(digit_char(n % 10))
    }
}

/// The decimal text of `n`, as integers display: a minus sign for negative
/// numbers, then the digits of the magnitude.
pub open spec fn int_decimal(n: int) -> Seq<char> {
    if n < 0 {
        seq!['-'] + nat_decimal((-n) as nat)
    } else {
        nat_decimal(n as nat)
    }
}

fn digit_text(d: u64) -> (s: &'static str)
    requires
        d < 10,
    ensures
        s@ == seq![digit_char(d as nat)],
{
    proof {
        reveal_strlit("0");
        reveal_strlit("1");
        reveal_strlit("2");
        reveal_strlit("3");
        reveal_strlit("4");
        reveal_strlit("5");
        reveal_strlit("6");
        reveal_strlit("7");
        reveal_strlit("8");
        reveal_strlit("9");
    }
    if d == 0 {
        "0"
    } else if d == 1 {
        "1"
    } else if d == 2 {
        "2"
    } else if d == 3 {
        "3"
    } else if d == 4 {
        "4"
    } else if d == 5 {
        "5"
    } else if d == 6 {
        "6"
    } else if d == 7 {
        "7"
    } else if d == 8 {
        "8"
    } else {
        "9"
    }
}

/// The decimal digits of `n`.
pub fn unsigned_decimal(n: u64) -> (s: String)
    ensures
        s@ == nat_decimal(n as nat),
{
    let mut digits: Vec<u64> = Vec::new();
    let mut m: u64 = n;
    let ghost mut suffix: Seq<char> = Seq::empty();
    while m >= 10
        invariant
            nat_decimal(n as nat) == nat_decimal(m as nat) + suffix,
            suffix.len() == digits@.len(),
            forall|k: int|
                0 <= k < digits@.len() ==> digits@[k] < 10 && suffix[suffix.len() - 1 - k]
                    == digit_char(#[trigger] digits@[k] as nat),
        decreases m,
    {
        let d = m % 10;
        proof {
            let old_suffix = suffix;
            suffix = seq![digit_char(d as nat)] + suffix;
            assert(nat_decimal(m as nat) == nat_decimal((m / 10) as nat).push(digit_char(d as nat)));
            assert(nat_decimal(n as nat) =~= nat_decimal((m / 10) as nat) + suffix);
            assert forall|k: int| 0 <= k < digits@.len() implies suffix[suffix.len() - 1 - k]
                == digit_char(#[trigger] digits@[k] as nat) by {
                assert(suffix[suffix.len() - 1 - k] == old_suffix[old_suffix.len() - 1 - k]);
            }
        }
        digits.push(d);
        m = m / 10;
    }
    let mut out = String::from_str(digit_text(m));
    let mut i: usize = digits.len();
    assert(nat_decimal(n as nat) =~= out@ + suffix.subrange(0, suffix.len() as int));
    while i > 0
        invariant
            i <= digits@.len(),
            suffix.len() == digits@.len(),
            forall|k: int|
                0 <= k < digits@.len() ==> digits@[k] < 10 && suffix[suffix.len() - 1 - k]
                    == digit_char(#[trigger] digits@[k] as nat),
            nat_decimal(n as nat) == out@ + suffix.subrange(
                (suffix.len() - i) as int,
                suffix.len() as int,
            ),
        decreases i,
    {
        let d = digits[i - 1];
        let ghost j = suffix.len() - i;
        assert(suffix[j] == digit_char(digits@[i - 1] as nat));
        out.append(digit_text(d));
        proof {
            assert(suffix.subrange(j, suffix.len() as int) =~= seq![suffix[j]] + suffix.subrange(
                j + 1,
                suffix.len() as int,
            ));
        }
        i = i - 1;
    }
    assert(suffix.subrange(suffix.len() as int, suffix.len() as int) =~= Seq::<char>::empty());
    out
}

/// The decimal text of `n`, as `i64`'s `Display` writes it.
pub fn signed_decimal(n: i64) -> (s: String)
    ensures
        s@ == int_decimal(n as int),
{
    if n < 0 {
        let magnitude: u64 = if n == i64::MIN {
            9223372036854775808u64
        } else {
            (-n) as u64
        };
        let digits = unsigned_decimal(magnitude);
        proof {
            reveal_strlit("-");
        }
        join2("-", digits.as_str())
    } else {
        unsigned_decimal(n as u64)
    }
}

} // verus!
