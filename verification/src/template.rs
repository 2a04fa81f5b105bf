//! Placeholder substitution for timestamp and record templates.
//!
//! A template is ordinary text in which `{name}` stands for the value bound
//! to `name`.  Substitution works over a fixed list of `(name, value)`
//! bindings; a `{name}` whose name is not bound is an error, and so is a
//! brace that does not delimit a well-formed placeholder (a lone `{` or `}`,
//! or a `{` inside a placeholder).

use vstd::prelude::*;

verus! {

/// Everything that can go wrong inside the logging facility.
///
/// `UnknownPlaceholder` and `BadSyntax` are configuration errors raised by
/// template substitution; `WriteFailed` reports an I/O failure of a sink.
#[derive(Clone, Copy, Debug, PartialEq, Eq, Structural)]
pub enum LogError {
    UnknownPlaceholder,
    BadSyntax,
    WriteFailed,
}

/// The value bound to `name`, looked up front to back.
pub open spec fn lookup_spec(vars: Seq<(Seq<char>, Seq<char>)>, name: Seq<char>) -> Option<
    Seq<char>,
>
    decreases vars.len(),
{
    if vars.len() == 0 {
        None
    } else if vars[0].0 == name {
        Some(vars[0].1)
    } else {
        lookup_spec(vars.skip(1), name)
    }
}

/// What substitution yields on template `t` under the bindings `vars`,
/// reading `t` from the front, outside of any placeholder.
pub open spec fn subst_spec(t: Seq<char>, vars: Seq<(Seq<char>, Seq<char>)>) -> Result<
    Seq<char>,
    LogError,
>
    decreases t.len(), 1int,
{
    if t.len() == 0 {
        Ok(Seq::empty())
    } else if t[0] == '}' {
        Err(LogError::BadSyntax)
    } else if t[0] == '{' {
        subst_ph_spec(t.skip(1), vars, Seq::empty())
    } else {
        match subst_spec(t.skip(1), vars) {
            Ok(rest) => Ok(seq![t[0]] + rest),
            Err(e) => Err(e),
        }
    }
}

/// What substitution yields when the text so far has opened a placeholder
/// whose name read so far is `name`, and `t` is what remains.
pub open spec fn subst_ph_spec(
    t: Seq<char>,
    vars: Seq<(Seq<char>, Seq<char>)>,
    name: Seq<char>,
) -> Result<Seq<char>, LogError>
    decreases t.len(), 0int,
{
    if t.len() == 0 {
        Err(LogError::BadSyntax)
    } else if t[0] == '}' {
        match lookup_spec(vars, name) {
            None => Err(LogError::UnknownPlaceholder),
            Some(v) => match subst_spec(t.skip(1), vars) {
                Ok(rest) => Ok(v + rest),
                Err(e) => Err(e),
            },
        }
    } else if t[0] == '{' {
        Err(LogError::BadSyntax)
    } else {
        subst_ph_spec(t.skip(1), vars, name.push(t[0]))
    }
}

/// The views of a list of owned `(name, value)` bindings.
pub open spec fn views_of(vars: Seq<(String, String)>) -> Seq<(Seq<char>, Seq<char>)> {
    vars.map_values(|p: (String, String)| (p.0@, p.1@))
}

/// `r` with `p` prepended to its success value.
pub open spec fn prepend_ok(p: Seq<char>, r: Result<Seq<char>, LogError>) -> Result<
    Seq<char>,
    LogError,
> {
    match r {
        Ok(s) => Ok(p + s),
        Err(e) => Err(e),
    }
}

proof fn lemma_prepend_assoc(a: Seq<char>, b: Seq<char>, r: Result<Seq<char>, LogError>)
    ensures
        prepend_ok(a, prepend_ok(b, r)) == prepend_ok(a + b, r),
{
    match r {
        Ok(s) => {
            assert(a + (b + s) =~= (a + b) + s);
        },
        Err(_) => {},
    }
}

proof fn lemma_prepend_empty(r: Result<Seq<char>, LogError>)
    ensures
        prepend_ok(Seq::<char>::empty(), r) == r,
{
    match r {
        Ok(s) => {
            assert(Seq::<char>::empty() + s =~= s);
        },
        Err(_) => {},
    }
}

proof fn lemma_lookup_step(vs: Seq<(Seq<char>, Seq<char>)>, j: int, name: Seq<char>)
    requires
        0 <= j < vs.len(),
    ensures
        vs[j].0 == name ==> lookup_spec(vs.skip(j), name) == Some(vs[j].1),
        vs[j].0 != name ==> lookup_spec(vs.skip(j), name) == lookup_spec(vs.skip(j + 1), name),
{
    assert(vs.skip(j)[0] == vs[j]);
    assert(vs.skip(j).skip(1) =~= vs.skip(j + 1));
}

proof fn lemma_subst_step_lit(t: Seq<char>, vs: Seq<(Seq<char>, Seq<char>)>, i: int)
    requires
        0 <= i < t.len(),
        t[i] != '{',
        t[i] != '}',
    ensures
        subst_spec(t.skip(i), vs) == prepend_ok(seq![t[i]], subst_spec(t.skip(i + 1), vs)),
{
    assert(t.skip(i)[0] == t[i]);
    assert(t.skip(i).skip(1) =~= t.skip(i + 1));
}

proof fn lemma_subst_step_ph(t: Seq<char>, vs: Seq<(Seq<char>, Seq<char>)>, i: int, name: Seq<char>)
    requires
        0 <= i < t.len(),
        t[i] != '{',
        t[i] != '}',
    ensures
        subst_ph_spec(t.skip(i), vs, name) == subst_ph_spec(t.skip(i + 1), vs, name.push(t[i])),
{
    assert(t.skip(i)[0] == t[i]);
    assert(t.skip(i).skip(1) =~= t.skip(i + 1));
}

proof fn lemma_subst_open(t: Seq<char>, vs: Seq<(Seq<char>, Seq<char>)>, i: int)
    requires
        0 <= i < t.len(),
        t[i] == '{',
    ensures
        subst_spec(t.skip(i), vs) == subst_ph_spec(t.skip(i + 1), vs, Seq::<char>::empty()),
{
    assert(t.skip(i)[0] == t[i]);
    assert(t.skip(i).skip(1) =~= t.skip(i + 1));
}

proof fn lemma_subst_close(t: Seq<char>, vs: Seq<(Seq<char>, Seq<char>)>, i: int, name: Seq<char>)
    requires
        0 <= i < t.len(),
        t[i] == '}',
    ensures
        subst_ph_spec(t.skip(i), vs, name) == match lookup_spec(vs, name) {
            None => Err(LogError::UnknownPlaceholder),
            Some(v) => prepend_ok(v, subst_spec(t.skip(i + 1), vs)),
        },
{
    assert(t.skip(i)[0] == t[i]);
    assert(t.skip(i).skip(1) =~= t.skip(i + 1));
}

/// A template that ends in a newline substitutes, whenever substitution
/// succeeds, to text that also ends in a newline: the trailing newline that
/// was normalized into a stored template survives every rendering.
pub proof fn lemma_subst_trailing_newline(t: Seq<char>, vars: Seq<(Seq<char>, Seq<char>)>)
    requires
        t.len() > 0,
        t.last() == '\n',
        subst_spec(t, vars) is Ok,
    ensures
        subst_spec(t, vars) matches Ok(r) && r.len() > 0 && r.last() == '\n',
    decreases t.len(), 1int,
{
    if t[0] == '}' {
        assert(false);
    } else if t[0] == '{' {
        assert(t.len() >= 2);
        assert(t.skip(1).last() == t.last());
        lemma_subst_ph_trailing_newline(t.skip(1), vars, Seq::empty());
    } else {
        if t.len() == 1 {
            assert(t.skip(1) =~= Seq::<char>::empty());
            let r = (seq![t[0]] + Seq::<char>::empty());
            assert(r.last() == t[0]);
        } else {
            assert(t.skip(1).len() > 0 && t.skip(1).last() == t.last());
            lemma_subst_trailing_newline(t.skip(1), vars);
        }
    }
}

proof fn lemma_subst_ph_trailing_newline(
    t: Seq<char>,
    vars: Seq<(Seq<char>, Seq<char>)>,
    name: Seq<char>,
)
    requires
        t.len() > 0,
        t.last() == '\n',
        subst_ph_spec(t, vars, name) is Ok,
    ensures
        subst_ph_spec(t, vars, name) matches Ok(r) && r.len() > 0 && r.last() == '\n',
    decreases t.len(), 0int,
{
    if t[0] == '}' {
        assert(t.len() >= 2);
        assert(t.skip(1).len() > 0 && t.skip(1).last() == t.last());
        lemma_subst_trailing_newline(t.skip(1), vars);
    } else if t[0] == '{' {
        assert(false);
    } else {
        if t.len() == 1 {
            assert(t.skip(1).len() == 0);
            assert(subst_ph_spec(t.skip(1), vars, name.push(t[0])) == Err::<Seq<char>, LogError>(
                LogError::BadSyntax,
            ));
            assert(false);
        } else {
            assert(t.skip(1).len() > 0 && t.skip(1).last() == t.last());
            lemma_subst_ph_trailing_newline(t.skip(1), vars, name.push(t[0]));
        }
    }
}

/// The value bound to `name`, if any, as `lookup_spec` finds it.
fn lookup_var(vars: &Vec<(String, String)>, name: &String) -> (r: Option<String>)
    ensures
        match lookup_spec(views_of(vars@), name@) {
            Some(v) => r matches Some(rv) && rv@ == v,
            None => r is None,
        },
{
    let ghost vs = views_of(vars@);
    proof {
        assert(vs.skip(0) =~= vs);
    }
    let n = vars.len();
    let mut j: usize = 0;
    while j < n
        invariant
            j <= n,
            n == vars.len(),
            vs == views_of(vars@),
            lookup_spec(vs, name@) == lookup_spec(vs.skip(j as int), name@),
        decreases n - j,
    {
        proof {
            assert(vs[j as int] == (vars@[j as int].0@, vars@[j as int].1@));
            lemma_lookup_step(vs, j as int, name@);
        }
        let entry: &(String, String) = &vars[j];
        if entry.0 == *name {
            return Some(entry.1.clone());
        }
        j += 1;
    }
    proof {
        assert(vs.skip(n as int).len() == 0);
    }
    None
}

/// Substitutes the bound values into template `t`, exactly as `subst_spec`
/// describes: literal text is copied, `{name}` becomes the value bound to
/// `name`, an unbound name or a stray brace is an error.
pub fn substitute(t: &str, vars: &Vec<(String, String)>) -> (r: Result<String, LogError>)
    ensures
        match subst_spec(t@, views_of(vars@)) {
            Ok(s) => r matches Ok(out) && out@ == s,
            Err(e) => r matches Err(e2) && e2 == e,
        },
{
    let ghost vs = views_of(vars@);
    let n = t.unicode_len();
    let mut out = String::new();
    let mut i: usize = 0;
    proof {
        assert(t@.skip(0) =~= t@);
        lemma_prepend_empty(subst_spec(t@, vs));
    }
    loop
        invariant
            i <= n,
            n == t@.len(),
            vs == views_of(vars@),
            subst_spec(t@, vs) == prepend_ok(out@, subst_spec(t@.skip(i as int), vs)),
        ensures
            i == n,
            subst_spec(t@, vs) == prepend_ok(out@, subst_spec(t@.skip(i as int), vs)),
        decreases n - i,
    {
        let seg_start: usize = i;
        proof {
            assert(out@ + t@.subrange(seg_start as int, i as int) =~= out@);
        }
        loop
            invariant
                seg_start <= i <= n,
                n == t@.len(),
                vs == views_of(vars@),
                subst_spec(t@, vs) == prepend_ok(
                    out@ + t@.subrange(seg_start as int, i as int),
                    subst_spec(t@.skip(i as int), vs),
                ),
            ensures
                seg_start <= i <= n,
                subst_spec(t@, vs) == prepend_ok(
                    out@ + t@.subrange(seg_start as int, i as int),
                    subst_spec(t@.skip(i as int), vs),
                ),
                i == n || t@[i as int] == '{' || t@[i as int] == '}',
            decreases n - i,
        {
            if i >= n {
                break ;
            }
            let c = t.get_char(i);
            if c == '{' || c == '}' {
                break ;
            }
            proof {
                lemma_subst_step_lit(t@, vs, i as int);
                lemma_prepend_assoc(
                    out@ + t@.subrange(seg_start as int, i as int),
                    seq![t@[i as int]],
                    subst_spec(t@.skip(i as int + 1), vs),
                );
                assert((out@ + t@.subrange(seg_start as int, i as int)) + seq![t@[i as int]]
                    =~= out@ + t@.subrange(seg_start as int, i as int + 1));
            }
            i += 1;
        }
        out.append(t.substring_char(seg_start, i));
        if i >= n {
            break ;
        }
        let c = t.get_char(i);
        if c == '}' {
            proof {
                assert(t@.skip(i as int)[0] == t@[i as int]);
            }
            return Err(LogError::BadSyntax);
        }
        proof {
            lemma_subst_open(t@, vs, i as int);
        }
        i += 1;
        let name_start: usize = i;
        proof {
            assert(t@.subrange(name_start as int, i as int) =~= Seq::<char>::empty());
        }
        loop
            invariant
                name_start <= i <= n,
                n == t@.len(),
                vs == views_of(vars@),
                subst_spec(t@, vs) == prepend_ok(
                    out@,
                    subst_ph_spec(t@.skip(i as int), vs, t@.subrange(name_start as int, i as int)),
                ),
            ensures
                name_start <= i <= n,
                subst_spec(t@, vs) == prepend_ok(
                    out@,
                    subst_ph_spec(t@.skip(i as int), vs, t@.subrange(name_start as int, i as int)),
                ),
                i < n && t@[i as int] == '}',
            decreases n - i,
        {
            if i >= n {
                proof {
                    assert(t@.skip(i as int).len() == 0);
                }
                return Err(LogError::BadSyntax);
            }
            let c2 = t.get_char(i);
            if c2 == '}' {
                break ;
            }
            if c2 == '{' {
                proof {
                    assert(t@.skip(i as int)[0] == t@[i as int]);
                }
                return Err(LogError::BadSyntax);
            }
            proof {
                lemma_subst_step_ph(
                    t@,
                    vs,
                    i as int,
                    t@.subrange(name_start as int, i as int),
                );
                assert(t@.subrange(name_start as int, i as int).push(t@[i as int])
                    =~= t@.subrange(name_start as int, i as int + 1));
            }
            i += 1;
        }
        let name = String::from_str(t.substring_char(name_start, i));
        proof {
            lemma_subst_close(t@, vs, i as int, name@);
        }
        i += 1;
        match lookup_var(vars, &name) {
            None => {
                return Err(LogError::UnknownPlaceholder);
            },
            Some(v) => {
                proof {
                    lemma_prepend_assoc(out@, v@, subst_spec(t@.skip(i as int), vs));
                }
                out.append(v.as_str());
            },
        }
    }
    proof {
        assert(t@.skip(n as int) =~= Seq::<char>::empty());
        assert(out@ + Seq::<char>::empty() =~= out@);
    }
    Ok(out)
}

} // verus!
