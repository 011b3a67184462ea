//! Character-level text operations: decimal rendering of numbers, token
//! search and token substitution, each specified over `Seq<char>`.
use vstd::prelude::*;

verus! {

/// The token that a fragment template uses for the column name.
pub open spec fn name_token() -> Seq<char> {
    seq!['{', 'n', 'a', 'm', 'e', '}']
}

/// The token that a fragment template uses for the comparison operator.
pub open spec fn condition_token() -> Seq<char> {
    seq!['{', 'c', 'o', 'n', 'd', 'i', 't', 'i', 'o', 'n', '}']
}

/// The token that a template uses for the positional parameter.
pub open spec fn index_token() -> Seq<char> {
    seq!['{', 'i', 'n', 'd', 'e', 'x', '}']
}

/// `tok` occurs in `s` starting at position `i`.
pub open spec fn occurs_at(s: Seq<char>, i: int, tok: Seq<char>) -> bool {
    0 <= i && i + tok.len() <= s.len() && s.subrange(i, i + tok.len()) == tok
}

/// `tok` occurs somewhere in `s`.
pub open spec fn contains(s: Seq<char>, tok: Seq<char>) -> bool {
    exists|i: int| occurs_at(s, i, tok)
}

/// `s` with every occurrence of `tok`, found left to right and without
/// overlap, replaced by `rep`. The replacement text is never scanned again.
pub open spec fn replace_all(s: Seq<char>, tok: Seq<char>, rep: Seq<char>) -> Seq<char>
    decreases s.len(),
{
    if s.len() == 0 {
        seq![]
    } else if tok.len() > 0 && occurs_at(s, 0, tok) {
        rep + replace_all(s.subrange(tok.len() as int, s.len() as int), tok, rep)
    } else {
        seq![s[0]] + replace_all(s.subrange(1, s.len() as int), tok, rep)
    }
}

/// `t` with `{name}`, `{condition}` and `{index}` replaced by `name`, `cond`
/// and `idx`, in one left-to-right pass: text that a substituted value brings
/// in is never scanned for tokens.
pub open spec fn render(t: Seq<char>, name: Seq<char>, cond: Seq<char>, idx: Seq<char>) -> Seq<char>
    decreases t.len(),
{
    if t.len() == 0 {
        seq![]
    } else if occurs_at(t, 0, name_token()) {
        name + render(t.subrange(6, t.len() as int), name, cond, idx)
    } else if occurs_at(t, 0, condition_token()) {
        cond + render(t.subrange(11, t.len() as int), name, cond, idx)
    } else if occurs_at(t, 0, index_token()) {
        idx + render(t.subrange(7, t.len() as int), name, cond, idx)
    } else {
        seq![t[0]] + render(t.subrange(1, t.len() as int), name, cond, idx)
    }
}

/// The decimal digit for `d < 10`.
pub open spec fn digit(d: int) -> char {
    seq!['0', '1', '2', '3', '4', '5', '6', '7', '8', '9'][d]
}

/// The decimal representation of `n`, without sign or leading zeros.
pub open spec fn decimal(n: nat) -> Seq<char>
    decreases n,
{
    if n < 10 {
        seq![digit(n as int)]
    } else {
        decimal(n / 10) + seq![digit((n % 10) as int)]
    }
}

/// Whether two strings hold the same characters.
pub fn str_eq(a: &str, b: &str) -> (r: bool)
    ensures
        r == (a@ == b@),
{
    let n = a.unicode_len();
    if n != b.unicode_len() {
        return false;
    }
    let mut i: usize = 0;
    while i < n
        invariant
            n == a@.len(),
            n == b@.len(),
            i <= n,
            a@.subrange(0, i as int) == b@.subrange(0, i as int),
        decreases n - i,
    {
        if a.get_char(i) != b.get_char(i) {
            return false;
        }
        assert(a@.subrange(0, i + 1) =~= a@.subrange(0, i as int).push(a@[i as int]));
        assert(b@.subrange(0, i + 1) =~= b@.subrange(0, i as int).push(b@[i as int]));
        i = i + 1;
    }
    assert(a@ =~= a@.subrange(0, n as int));
    assert(b@ =~= b@.subrange(0, n as int));
    true
}

/// Whether `tok` occurs in `s` at position `i`; `n` and `k` are the lengths
/// of `s` and `tok` in characters.
fn occurs_at_exec(s: &str, n: usize, i: usize, tok: &str, k: usize) -> (r: bool)
    requires
        n == s@.len(),
        k == tok@.len(),
        i <= n,
    ensures
        r == occurs_at(s@, i as int, tok@),
{
    if k > n - i {
        return false;
    }
    let mut j: usize = 0;
    while j < k
        invariant
            n == s@.len(),
            k == tok@.len(),
            i + k <= n,
            j <= k,
            s@.subrange(i as int, i + j) == tok@.subrange(0, j as int),
        decreases k - j,
    {
        if s.get_char(i + j) != tok.get_char(j) {
            assert(s@.subrange(i as int, i + k)[j as int] != tok@[j as int]);
            return false;
        }
        assert(s@.subrange(i as int, i + j + 1) =~= s@.subrange(i as int, i + j).push(
            s@[i + j],
        ));
        assert(tok@.subrange(0, j + 1) =~= tok@.subrange(0, j as int).push(tok@[j as int]));
        j = j + 1;
    }
    assert(tok@ =~= tok@.subrange(0, k as int));
    true
}

/// Whether `tok` occurs anywhere in `s`.
pub fn contains_token(s: &str, tok: &str) -> (r: bool)
    ensures
        r == contains(s@, tok@),
{
    let n = s.unicode_len();
    let k = tok.unicode_len();
    let mut i: usize = 0;
    while i < n
        invariant
            n == s@.len(),
            k == tok@.len(),
            i <= n,
            forall|p: int| 0 <= p < i ==> !occurs_at(s@, p, tok@),
        decreases n - i,
    {
        if occurs_at_exec(s, n, i, tok, k) {
            return true;
        }
        i = i + 1;
    }
    if occurs_at_exec(s, n, n, tok, k) {
        return true;
    }
    assert forall|p: int| !occurs_at(s@, p, tok@) by {
        if 0 <= p < n {
        }
    }
    false
}

proof fn lemma_skip_rest(s: Seq<char>, i: int, k: int)
    requires
        0 <= i,
        0 <= k,
        i + k <= s.len(),
    ensures
        s.subrange(i, s.len() as int).subrange(k, s.len() - i) == s.subrange(i + k, s.len() as int),
        occurs_at(s, i, s.subrange(i, i + k)),
{
    assert(s.subrange(i, s.len() as int).subrange(k, s.len() - i) =~= s.subrange(
        i + k,
        s.len() as int,
    ));
}

/// `s` with every occurrence of the non-empty `tok` replaced by `rep`.
pub fn replace_token(s: &str, tok: &str, rep: &str) -> (r: String)
    requires
        tok@.len() > 0,
    ensures
        r@ == replace_all(s@, tok@, rep@),
{
    let n = s.unicode_len();
    let k = tok.unicode_len();
    let mut out = String::new();
    let mut i: usize = 0;
    assert(s@.subrange(0, n as int) =~= s@);
    assert(out@ + replace_all(s@, tok@, rep@) =~= replace_all(s@, tok@, rep@));
    while i < n
        invariant
            n == s@.len(),
            k == tok@.len(),
            k > 0,
            i <= n,
            out@ + replace_all(s@.subrange(i as int, n as int), tok@, rep@) == replace_all(
                s@,
                tok@,
                rep@,
            ),
        decreases n - i,
    {
        let ghost rest = s@.subrange(i as int, n as int);
        if occurs_at_exec(s, n, i, tok, k) {
            proof {
                assert(rest.subrange(0, k as int) =~= s@.subrange(i as int, i + k));
                lemma_skip_rest(s@, i as int, k as int);
            }
            out.append(rep);
            i = i + k;
        } else {
            proof {
                if occurs_at(rest, 0, tok@) {
                    assert(rest.subrange(0, k as int) =~= s@.subrange(i as int, i + k));
                }
                lemma_skip_rest(s@, i as int, 1);
            }
            out.append(s.substring_char(i, i + 1));
            i = i + 1;
        }
    }
    assert(s@.subrange(n as int, n as int) =~= Seq::<char>::empty());
    assert(s@.subrange(0, n as int) =~= s@);
    out
}

/// Seen from position `i`, `s` holds `tok` at its start exactly when `tok`
/// occurs in `s` at `i`.
proof fn lemma_occurs_shift(s: Seq<char>, i: int, tok: Seq<char>)
    requires
        0 <= i <= s.len(),
    ensures
        occurs_at(s.subrange(i, s.len() as int), 0, tok) == occurs_at(s, i, tok),
{
    if i + tok.len() <= s.len() {
        assert(s.subrange(i, s.len() as int).subrange(0, tok.len() as int) =~= s.subrange(
            i,
            i + tok.len(),
        ));
    }
}

/// Appends the decimal representation of `n` to `out`.
pub fn push_decimal(out: &mut String, n: usize)
    ensures
        final(out)@ == old(out)@ + decimal(n as nat),
    decreases n,
{
    if n >= 10 {
        push_decimal(out, n / 10);
    }
    let d = n % 10;
    let digits = "0123456789";
    proof {
        reveal_strlit("0123456789");
        assert(digits@.subrange(d as int, d + 1) =~= seq![digit(d as int)]);
    }
    out.append(digits.substring_char(d, d + 1));
    proof {
        if n >= 10 {
            assert(final(out)@ =~= old(out)@ + decimal(n as nat));
        } else {
            assert(final(out)@ =~= old(out)@ + decimal(n as nat));
        }
    }
}

/// The decimal representation of `n`.
pub fn decimal_string(n: usize) -> (r: String)
    ensures
        r@ == decimal(n as nat),
{
    let mut out = String::new();
    push_decimal(&mut out, n);
    assert(out@ =~= decimal(n as nat));
    out
}

/// `t` with `{name}`, `{condition}` and `{index}` replaced, in one pass, by
/// `name`, `cond` and `idx`.
pub fn render_template(t: &str, name: &str, cond: &str, idx: &str) -> (r: String)
    ensures
        r@ == render(t@, name@, cond@, idx@),
{
    let name_tok = "{name}";
    let cond_tok = "{condition}";
    let idx_tok = "{index}";
    proof {
        reveal_strlit("{name}");
        reveal_strlit("{condition}");
        reveal_strlit("{index}");
        assert(name_tok@ =~= name_token());
        assert(cond_tok@ =~= condition_token());
        assert(idx_tok@ =~= index_token());
    }
    let n = t.unicode_len();
    let mut out = String::new();
    let mut i: usize = 0;
    assert(t@.subrange(0, n as int) =~= t@);
    assert(out@ + render(t@, name@, cond@, idx@) =~= render(t@, name@, cond@, idx@));
    while i < n
        invariant
            n == t@.len(),
            i <= n,
            name_tok@ == name_token(),
            cond_tok@ == condition_token(),
            idx_tok@ == index_token(),
            out@ + render(t@.subrange(i as int, n as int), name@, cond@, idx@) == render(
                t@,
                name@,
                cond@,
                idx@,
            ),
        decreases n - i,
    {
        let ghost rest = t@.subrange(i as int, n as int);
        proof {
            lemma_occurs_shift(t@, i as int, name_token());
            lemma_occurs_shift(t@, i as int, condition_token());
            lemma_occurs_shift(t@, i as int, index_token());
        }
        if occurs_at_exec(t, n, i, name_tok, 6) {
            proof {
                lemma_skip_rest(t@, i as int, 6);
            }
            out.append(name);
            i = i + 6;
        } else if occurs_at_exec(t, n, i, cond_tok, 11) {
            proof {
                lemma_skip_rest(t@, i as int, 11);
            }
            out.append(cond);
            i = i + 11;
        } else if occurs_at_exec(t, n, i, idx_tok, 7) {
            proof {
                lemma_skip_rest(t@, i as int, 7);
            }
            out.append(idx);
            i = i + 7;
        } else {
            proof {
                lemma_skip_rest(t@, i as int, 1);
            }
            out.append(t.substring_char(i, i + 1));
            i = i + 1;
        }
    }
    assert(t@.subrange(n as int, n as int) =~= Seq::<char>::empty());
    out
}

} // verus!
