//! Text helpers shared by the message builders, the command line and the
//! file server: decimal numerals, joining, prefix tests and byte-level
//! search and replace.
use vstd::prelude::*;

verus! {

/// The ASCII digit for `d` (`0 <= d < 10`).
pub open spec fn digit_char(d: nat) -> char {
    (48 + d) as char
}

/// The decimal numeral of `n`, most significant digit first, no leading zeros.
pub open spec fn decimal(n: nat) -> Seq<char>
    decreases n,
{
    if n < 10 {
        seq![digit_char(n)]
    } else {
        decimal(n / 10).push(digit_char(n % 10))
    }
}

/// Whether `s` is a non-empty run of the decimal digits `0` to `9`.
pub open spec fn is_numeral(s: Seq<char>) -> bool {
    s.len() > 0 && forall|i: int| 0 <= i < s.len() ==> '0' <= #[trigger] s[i] <= '9'
}

/// The number a run of decimal digits stands for, read from the left.
pub open spec fn numeral_value(s: Seq<char>) -> nat
    decreases s.len(),
{
    if s.len() == 0 {
        0
    } else {
        numeral_value(s.drop_last()) * 10 + ((s.last() as nat) - 48) as nat
    }
}

/// Reading a decimal numeral back gives the number it was written for: the
/// numeral of `n` is a run of digits whose value is `n`.
pub proof fn lemma_decimal_reads_back(n: nat)
    ensures
        is_numeral(decimal(n)),
        numeral_value(decimal(n)) == n,
    decreases n,
{
    if n >= 10 {
        lemma_decimal_reads_back(n / 10);
        let d = decimal(n);
        assert(d.drop_last() =~= decimal(n / 10));
        assert(((d.last() as nat) - 48) as nat == n % 10);
        vstd::arithmetic::div_mod::lemma_fundamental_div_mod(n as int, 10);
        assert(numeral_value(d) == numeral_value(decimal(n / 10)) * 10 + n % 10);
        assert((n / 10) * 10 + n % 10 == n) by (nonlinear_arith)
            requires
                n == 10 * (n / 10) + (n % 10),
        ;
        assert forall|i: int| 0 <= i < d.len() implies '0' <= #[trigger] d[i] <= '9' by {
            if i < d.len() - 1 {
                assert(d[i] == decimal(n / 10)[i]);
            }
        }
    } else {
        let d = decimal(n);
        assert(d.drop_last() =~= Seq::<char>::empty());
        assert(numeral_value(d.drop_last()) == 0);
        assert(numeral_value(d) == n);
    }
}

/// The bytes of an ASCII text, one byte per character.
pub open spec fn ascii_bytes(s: Seq<char>) -> Seq<u8> {
    s.map_values(|c: char| c as u8)
}

/// The views of a sequence of strings.
pub open spec fn views(v: Seq<String>) -> Seq<Seq<char>> {
    v.map_values(|s: String| s@)
}

/// The view of an optional string.
pub open spec fn opt_view(o: Option<String>) -> Option<Seq<char>> {
    match o {
        Some(s) => Some(s@),
        None => None,
    }
}

/// `words` joined by single spaces.
pub open spec fn join_spaced(words: Seq<Seq<char>>) -> Seq<char>
    decreases words.len(),
{
    if words.len() == 0 {
        Seq::empty()
    } else if words.len() == 1 {
        words[0]
    } else {
        join_spaced(words.drop_last()) + seq![' '] + words.last()
    }
}

/// Whether `prefix` is a prefix of `s`.
pub open spec fn has_prefix<T>(s: Seq<T>, prefix: Seq<T>) -> bool {
    prefix.len() <= s.len() && s.subrange(0, prefix.len() as int) == prefix
}

/// `text` with every occurrence of `pat` replaced by `rep`, scanning from the
/// left and never letting two replaced occurrences overlap.
pub open spec fn replace_all(text: Seq<u8>, pat: Seq<u8>, rep: Seq<u8>) -> Seq<u8>
    decreases text.len(),
{
    if text.len() == 0 {
        Seq::empty()
    } else if pat.len() > 0 && has_prefix(text, pat) {
        rep + replace_all(text.subrange(pat.len() as int, text.len() as int), pat, rep)
    } else {
        seq![text[0]] + replace_all(text.subrange(1, text.len() as int), pat, rep)
    }
}

/// Membership after appending to a sequence.
pub proof fn lemma_push_contains<T>(s: Seq<T>, x: T)
    ensures
        forall|y: T| #[trigger] s.push(x).contains(y) <==> (s.contains(y) || y == x),
{
    assert forall|y: T| #[trigger] s.push(x).contains(y) <==> (s.contains(y) || y == x) by {
        if s.contains(y) {
            let j = choose|j: int| 0 <= j < s.len() && s[j] == y;
            assert(s.push(x)[j] == y);
        }
        if y == x {
            assert(s.push(x)[s.len() as int] == x);
        }
        if s.push(x).contains(y) {
            let j = choose|j: int| 0 <= j < s.push(x).len() && s.push(x)[j] == y;
            if j < s.len() {
                assert(s[j] == y);
            }
        }
    }
}

fn digit_of(d: u64) -> (c: char)
    requires
        d < 10,
    ensures
        c == digit_char(d as nat),
{
    let b: u8 = 48u8 + (d as u8);
    b as char
}

/// The one-digit text of `d`.
fn digit_str(d: u64) -> (s: &'static str)
    requires
        d < 10,
    ensures
        s@ == seq![digit_char(d as nat)],
{
    if d == 0 {
        proof {
            reveal_strlit("0");
        }
        "0"
    } else if d == 1 {
        proof {
            reveal_strlit("1");
        }
        "1"
    } else if d == 2 {
        proof {
            reveal_strlit("2");
        }
        "2"
    } else if d == 3 {
        proof {
            reveal_strlit("3");
        }
        "3"
    } else if d == 4 {
        proof {
            reveal_strlit("4");
        }
        "4"
    } else if d == 5 {
        proof {
            reveal_strlit("5");
        }
        "5"
    } else if d == 6 {
        proof {
            reveal_strlit("6");
        }
        "6"
    } else if d == 7 {
        proof {
            reveal_strlit("7");
        }
        "7"
    } else if d == 8 {
        proof {
            reveal_strlit("8");
        }
        "8"
    } else {
        proof {
            reveal_strlit("9");
        }
        "9"
    }
}

/// The decimal numeral of `n` as a string.
pub fn decimal_string(n: u64) -> (s: String)
    ensures
        s@ == decimal(n as nat),
    decreases n,
{
    if n < 10 {
        let mut s = String::new();
        s.append(digit_str(n));
        assert(s@ =~= seq![digit_char(n as nat)]);
        s
    } else {
        let mut s = decimal_string(n / 10);
        s.append(digit_str(n % 10));
        s
    }
}

proof fn lemma_ascii_bytes_push(s: Seq<char>, c: char)
    ensures
        ascii_bytes(s.push(c)) == ascii_bytes(s).push(c as u8),
{
    assert(ascii_bytes(s.push(c)) =~= ascii_bytes(s).push(c as u8));
}

/// The decimal numeral of `n` as ASCII bytes.
pub fn decimal_bytes(n: u64) -> (b: Vec<u8>)
    ensures
        b@ == ascii_bytes(decimal(n as nat)),
    decreases n,
{
    if n < 10 {
        let mut b: Vec<u8> = Vec::new();
        let c = digit_of(n);
        b.push(48u8 + (n as u8));
        proof {
            lemma_ascii_bytes_push(Seq::empty(), c);
            assert(Seq::<char>::empty().push(c) =~= seq![c]);
            assert(ascii_bytes(Seq::<char>::empty()) =~= Seq::<u8>::empty());
        }
        b
    } else {
        let mut b = decimal_bytes(n / 10);
        let c = digit_of(n % 10);
        b.push(48u8 + ((n % 10) as u8));
        proof {
            lemma_ascii_bytes_push(decimal((n / 10) as nat), c);
        }
        b
    }
}

/// Appends `tail` to `out`.
pub fn extend_bytes(out: &mut Vec<u8>, tail: &[u8])
    ensures
        final(out)@ == old(out)@ + tail@,
{
    let ghost start = out@;
    let mut i: usize = 0;
    while i < tail.len()
        invariant
            i <= tail@.len(),
            out@ == start + tail@.subrange(0, i as int),
        decreases tail@.len() - i,
    {
        out.push(tail[i]);
        i = i + 1;
        assert(out@ =~= start + tail@.subrange(0, i as int));
    }
    assert(tail@.subrange(0, i as int) =~= tail@);
}

/// Copies a sequence of strings.
pub fn copy_strings(v: &Vec<String>) -> (r: Vec<String>)
    ensures
        views(r@) == views(v@),
{
    let mut r: Vec<String> = Vec::new();
    let mut i: usize = 0;
    while i < v.len()
        invariant
            i <= v@.len(),
            views(r@) == views(v@).subrange(0, i as int),
        decreases v@.len() - i,
    {
        let s = v[i].clone();
        assert(s@ == v@[i as int]@);
        let ghost prev = r@;
        r.push(s);
        assert(views(r@) =~= views(prev).push(v@[i as int]@));
        assert(views(v@).subrange(0, i + 1) =~= views(v@).subrange(0, i as int).push(
            v@[i as int]@,
        ));
        i = i + 1;
    }
    assert(views(v@).subrange(0, i as int) =~= views(v@));
    r
}

/// Whether `v` holds a string equal to `s`.
pub fn contains_string(v: &Vec<String>, s: &String) -> (r: bool)
    ensures
        r == views(v@).contains(s@),
{
    let mut i: usize = 0;
    while i < v.len()
        invariant
            i <= v@.len(),
            forall|j: int| 0 <= j < i ==> v@[j]@ != s@,
        decreases v@.len() - i,
    {
        if v[i] == *s {
            assert(views(v@)[i as int] == s@);
            return true;
        }
        i = i + 1;
    }
    assert forall|j: int| 0 <= j < views(v@).len() implies views(v@)[j] != s@ by {}
    false
}

/// Whether `s` starts with `prefix`.
pub fn starts_with(s: &str, prefix: &str) -> (r: bool)
    ensures
        r == has_prefix(s@, prefix@),
{
    let n = s.unicode_len();
    let m = prefix.unicode_len();
    if m > n {
        return false;
    }
    let mut i: usize = 0;
    while i < m
        invariant
            m == prefix@.len(),
            n == s@.len(),
            m <= n,
            i <= m,
            forall|j: int| 0 <= j < i ==> s@[j] == prefix@[j],
        decreases m - i,
    {
        if s.get_char(i) != prefix.get_char(i) {
            assert(s@.subrange(0, m as int)[i as int] != prefix@[i as int]);
            return false;
        }
        i = i + 1;
    }
    assert(s@.subrange(0, m as int) =~= prefix@);
    true
}

/// `words` joined by single spaces.
pub fn join_with_spaces(words: &Vec<String>) -> (r: String)
    ensures
        r@ == join_spaced(views(words@)),
{
    let mut r = String::new();
    let mut i: usize = 0;
    while i < words.len()
        invariant
            i <= words@.len(),
            r@ == join_spaced(views(words@).subrange(0, i as int)),
        decreases words@.len() - i,
    {
        let ghost before = views(words@).subrange(0, i as int);
        let ghost after = views(words@).subrange(0, i + 1);
        assert(after.drop_last() =~= before);
        if i > 0 {
            proof {
                reveal_strlit(" ");
            }
            r.append(" ");
        }
        r.append(words[i].as_str());
        i = i + 1;
        proof {
            if i == 1 {
                assert(before =~= Seq::<Seq<char>>::empty());
                assert(r@ =~= after[0]);
            } else {
                assert(r@ =~= join_spaced(before) + seq![' '] + after.last());
            }
        }
    }
    assert(views(words@).subrange(0, i as int) =~= views(words@));
    r
}

proof fn lemma_replace_step_match(text: Seq<u8>, pat: Seq<u8>, rep: Seq<u8>, i: int)
    requires
        0 <= i < text.len(),
        pat.len() > 0,
        has_prefix(text.subrange(i, text.len() as int), pat),
    ensures
        replace_all(text.subrange(i, text.len() as int), pat, rep) == rep + replace_all(
            text.subrange(i + pat.len(), text.len() as int),
            pat,
            rep,
        ),
{
    let t = text.subrange(i, text.len() as int);
    assert(t.subrange(pat.len() as int, t.len() as int) =~= text.subrange(
        i + pat.len(),
        text.len() as int,
    ));
}

proof fn lemma_replace_step_copy(text: Seq<u8>, pat: Seq<u8>, rep: Seq<u8>, i: int)
    requires
        0 <= i < text.len(),
        !(pat.len() > 0 && has_prefix(text.subrange(i, text.len() as int), pat)),
    ensures
        replace_all(text.subrange(i, text.len() as int), pat, rep) == seq![text[i]]
            + replace_all(text.subrange(i + 1, text.len() as int), pat, rep),
{
    let t = text.subrange(i, text.len() as int);
    assert(t.subrange(1, t.len() as int) =~= text.subrange(i + 1, text.len() as int));
}

/// Whether `pat` occurs in `text` at position `at`.
fn occurs_at(text: &[u8], pat: &[u8], at: usize) -> (r: bool)
    requires
        at <= text@.len(),
    ensures
        r == has_prefix(text@.subrange(at as int, text@.len() as int), pat@),
{
    if pat.len() > text.len() - at {
        return false;
    }
    let mut k: usize = 0;
    while k < pat.len()
        invariant
            at + pat@.len() <= text@.len(),
            text@.len() == text.len(),
            k <= pat@.len(),
            forall|j: int| 0 <= j < k ==> text@[at + j] == pat@[j],
        decreases pat@.len() - k,
    {
        if text[at + k] != pat[k] {
            assert(text@.subrange(at as int, text@.len() as int).subrange(0, pat@.len() as int)[k as int]
                != pat@[k as int]);
            return false;
        }
        k = k + 1;
    }
    assert(text@.subrange(at as int, text@.len() as int).subrange(0, pat@.len() as int) =~= pat@);
    true
}

/// `text` with every occurrence of `pat` replaced by `rep`, leftmost first.
pub fn replace_bytes(text: &[u8], pat: &[u8], rep: &[u8]) -> (r: Vec<u8>)
    requires
        pat@.len() > 0,
    ensures
        r@ == replace_all(text@, pat@, rep@),
{
    let mut out: Vec<u8> = Vec::new();
    let mut i: usize = 0;
    assert(text@.subrange(0, text@.len() as int) =~= text@);
    while i < text.len()
        invariant
            i <= text@.len(),
            pat@.len() > 0,
            replace_all(text@, pat@, rep@) == out@ + replace_all(
                text@.subrange(i as int, text@.len() as int),
                pat@,
                rep@,
            ),
        decreases text@.len() - i,
    {
        if occurs_at(text, pat, i) {
            proof {
                lemma_replace_step_match(text@, pat@, rep@, i as int);
            }
            extend_bytes(&mut out, rep);
            i = i + pat.len();
            assert(out@ + replace_all(text@.subrange(i as int, text@.len() as int), pat@, rep@)
                =~= (out@.subrange(0, out@.len() - rep@.len()) + rep@) + replace_all(
                text@.subrange(i as int, text@.len() as int),
                pat@,
                rep@,
            ));
        } else {
            proof {
                lemma_replace_step_copy(text@, pat@, rep@, i as int);
            }
            let ghost prev = out@;
            out.push(text[i]);
            i = i + 1;
            assert(prev + (seq![text@[i - 1]] + replace_all(
                text@.subrange(i as int, text@.len() as int),
                pat@,
                rep@,
            )) =~= out@ + replace_all(text@.subrange(i as int, text@.len() as int), pat@, rep@));
        }
    }
    assert(text@.subrange(i as int, text@.len() as int) =~= Seq::<u8>::empty());
    out
}

} // verus!
