//! Format templates with positional placeholders, interpolated on demand.
//!
//! A template is text in which `{N}` (one or more decimal digits) stands for
//! argument `N`, `{}` stands for the next argument in order of appearance,
//! and `{{` / `}}` stand for a literal brace. Any other brace is malformed.
use vstd::prelude::*;

verus! {

pub open spec fn is_digit(c: char) -> bool {
    '0' <= c && c <= '9'
}

/// The number of consecutive decimal digits in `t` starting at `k`.
pub open spec fn digit_run(t: Seq<char>, k: int) -> nat
    decreases t.len() - k,
{
    if 0 <= k < t.len() && is_digit(t[k]) {
        1 + digit_run(t, k + 1)
    } else {
        0
    }
}

/// The value of the decimal numeral `t[from..to]`.
pub open spec fn numeral(t: Seq<char>, from: int, to: int) -> int
    decreases to - from,
{
    if to <= from {
        0
    } else {
        numeral(t, from, to - 1) * 10 + (t[to - 1] as int - '0' as int)
    }
}

pub open spec fn prepend(p: Seq<char>, rest: Option<Seq<char>>) -> Option<Seq<char>> {
    match rest {
        Some(r) => Some(p + r),
        None => None,
    }
}

/// The text of `t[i..]` with each placeholder replaced by its argument text,
/// where `next` is the index that a `{}` placeholder takes; `None` where the
/// rest of the template is malformed or names an argument that is not there.
pub open spec fn fill_from(t: Seq<char>, texts: Seq<Seq<char>>, i: int, next: int) -> Option<
    Seq<char>,
>
    decreases t.len() - i,
{
    if i < 0 || i >= t.len() {
        Some(Seq::empty())
    } else if t[i] == '{' {
        if i + 1 < t.len() && t[i + 1] == '{' {
            prepend(seq!['{'], fill_from(t, texts, i + 2, next))
        } else {
            let j = i + 1 + digit_run(t, i + 1);
            if j < t.len() && t[j] == '}' {
                let implicit = j == i + 1;
                let idx = if implicit {
                    next
                } else {
                    numeral(t, i + 1, j)
                };
                if 0 <= idx < texts.len() {
                    prepend(
                        texts[idx],
                        fill_from(
                            t,
                            texts,
                            j + 1,
                            if implicit {
                                next + 1
                            } else {
                                next
                            },
                        ),
                    )
                } else {
                    None
                }
            } else {
                None
            }
        }
    } else if t[i] == '}' {
        if i + 1 < t.len() && t[i + 1] == '}' {
            prepend(seq!['}'], fill_from(t, texts, i + 2, next))
        } else {
            None
        }
    } else {
        prepend(seq![t[i]], fill_from(t, texts, i + 1, next))
    }
}

/// The whole template `t` filled with `texts`.
pub open spec fn fill(t: Seq<char>, texts: Seq<Seq<char>>) -> Option<Seq<char>> {
    fill_from(t, texts, 0, 0)
}

/// A template that can be filled from `n` arguments, whatever their text.
pub open spec fn template_ok(t: Seq<char>, n: nat) -> bool {
    fill(t, Seq::new(n, |k: int| Seq::<char>::empty())) is Some
}

pub open spec fn texts_of(v: Seq<String>) -> Seq<Seq<char>> {
    v.map_values(|s: String| s@)
}

pub open spec fn opt_view(o: Option<String>) -> Option<Seq<char>> {
    match o {
        Some(s) => Some(s@),
        None => None,
    }
}

/// Whether a template can be filled depends on how many arguments there are,
/// not on their text.
pub proof fn lemma_fill_from_defined(
    t: Seq<char>,
    a: Seq<Seq<char>>,
    b: Seq<Seq<char>>,
    i: int,
    next: int,
)
    requires
        a.len() == b.len(),
    ensures
        fill_from(t, a, i, next) is Some <==> fill_from(t, b, i, next) is Some,
    decreases t.len() - i,
{
    if i < 0 || i >= t.len() {
    } else if t[i] == '{' {
        if i + 1 < t.len() && t[i + 1] == '{' {
            lemma_fill_from_defined(t, a, b, i + 2, next);
        } else {
            let j = i + 1 + digit_run(t, i + 1);
            let next2 = if j == i + 1 {
                next + 1
            } else {
                next
            };
            if j < t.len() {
                lemma_fill_from_defined(t, a, b, j + 1, next2);
            }
        }
    } else if t[i] == '}' {
        if i + 1 < t.len() && t[i + 1] == '}' {
            lemma_fill_from_defined(t, a, b, i + 2, next);
        }
    } else {
        lemma_fill_from_defined(t, a, b, i + 1, next);
    }
}

/// A template is accepted for `texts` exactly when it is accepted for that
/// many arguments.
pub proof fn lemma_fill_defined(t: Seq<char>, texts: Seq<Seq<char>>)
    ensures
        fill(t, texts) is Some <==> template_ok(t, texts.len()),
{
    lemma_fill_from_defined(t, texts, Seq::new(texts.len(), |k: int| Seq::<char>::empty()), 0, 0);
}

proof fn lemma_digit_run_step(t: Seq<char>, k: int)
    requires
        0 <= k,
    ensures
        digit_run(t, k) > 0 ==> is_digit(t[k]) && digit_run(t, k) == 1 + digit_run(t, k + 1),
        digit_run(t, k) == 0 ==> !(k < t.len() && is_digit(t[k])),
        k + digit_run(t, k) <= t.len() || k >= t.len(),
    decreases t.len() - k,
{
    if 0 <= k < t.len() && is_digit(t[k]) {
        lemma_digit_run_step(t, k + 1);
    }
}

/// Reads the placeholder body that starts at `t[start..]`: returns the end of
/// its digit run and, where those digits name an index below `bound`, that index.
fn scan_index(t: &str, len: usize, start: usize, bound: usize) -> (r: (usize, Option<usize>))
    requires
        len == t@.len(),
        start <= len,
    ensures
        r.0 == start + digit_run(t@, start as int),
        r.0 <= len,
        r.1 matches Some(v) ==> v == numeral(t@, start as int, r.0 as int) && v < bound,
        r.1 is None ==> numeral(t@, start as int, r.0 as int) >= bound,
{
    let mut j: usize = start;
    let mut val: usize = 0;
    let mut over = bound == 0;
    proof {
        lemma_digit_run_step(t@, start as int);
    }
    while j < len && '0' <= t.get_char(j) && t.get_char(j) <= '9'
        invariant
            len == t@.len(),
            start <= j <= len,
            start + digit_run(t@, start as int) == j + digit_run(t@, j as int),
            !over ==> val == numeral(t@, start as int, j as int) && val < bound,
            over ==> numeral(t@, start as int, j as int) >= bound,
            numeral(t@, start as int, j as int) >= 0,
        decreases len - j,
    {
        proof {
            lemma_digit_run_step(t@, j as int);
        }
        let c = t.get_char(j);
        let d = (c as u32 - '0' as u32) as usize;
        assert(numeral(t@, start as int, j + 1) == numeral(t@, start as int, j as int) * 10 + d);
        if !over {
            match val.checked_mul(10) {
                Some(m) => match m.checked_add(d) {
                    Some(v) => {
                        if v < bound {
                            val = v;
                        } else {
                            over = true;
                        }
                    },
                    None => {
                        over = true;
                    },
                },
                None => {
                    over = true;
                },
            }
        }
        j = j + 1;
    }
    proof {
        lemma_digit_run_step(t@, j as int);
    }
    if over {
        (j, None)
    } else {
        (j, Some(val))
    }
}

/// Appends the character `t[i]` to `out`.
fn push_char_of(out: &mut String, t: &str, i: usize)
    requires
        i < t@.len() <= usize::MAX,
    ensures
        final(out)@ == old(out)@ + seq![t@[i as int]],
{
    let one = t.substring_char(i, i + 1);
    out.append(one);
    assert(one@ =~= seq![t@[i as int]]);
}

/// Fills the template `t` with the argument texts `texts`: `None` where the
/// template is malformed or a placeholder names an argument that is missing.
pub fn format_template(t: &str, texts: &[String]) -> (r: Option<String>)
    ensures
        opt_view(r) == fill(t@, texts_of(texts@)),
{
    let ghost tx = texts_of(texts@);
    let len = t.unicode_len();
    let mut out = String::new();
    let mut i: usize = 0;
    let mut next: usize = 0;
    while i < len
        invariant
            len == t@.len(),
            i <= len,
            next <= texts@.len(),
            tx == texts_of(texts@),
            fill(t@, tx) == prepend(out@, fill_from(t@, tx, i as int, next as int)),
        decreases len - i,
    {
        let c = t.get_char(i);
        if c == '{' {
            if i + 1 < len && t.get_char(i + 1) == '{' {
                push_char_of(&mut out, t, i);
                i = i + 2;
            } else {
                let (j, explicit) = scan_index(t, len, i + 1, texts.len());
                if j < len && t.get_char(j) == '}' {
                    let idx = if j == i + 1 {
                        if next < texts.len() {
                            Some(next)
                        } else {
                            None
                        }
                    } else {
                        explicit
                    };
                    match idx {
                        Some(k) => {
                            out.append(texts[k].as_str());
                            if j == i + 1 {
                                next = next + 1;
                            }
                            i = j + 1;
                        },
                        None => {
                            return None;
                        },
                    }
                } else {
                    return None;
                }
            }
        } else if c == '}' {
            if i + 1 < len && t.get_char(i + 1) == '}' {
                push_char_of(&mut out, t, i);
                i = i + 2;
            } else {
                return None;
            }
        } else {
            push_char_of(&mut out, t, i);
            i = i + 1;
        }
    }
    Some(out)
}

} // verus!
