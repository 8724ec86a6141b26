//! URL template rendering: every `{identifier}` occurrence in a template is
//! replaced by the value the identifier resolved to. Rendering is literal
//! substitution only; there is no escaping and there are no nested braces.
//! An opening brace that is never closed stays in the output as it stands.

use vstd::prelude::*;

use crate::addresses::AddressMap;

verus! {

/// Rendering failed because a placeholder names an identifier with no
/// resolved value. No partial output is returned in that case.
#[derive(Clone, Debug, PartialEq)]
pub enum RenderError {
    UnresolvedPlaceholder { placeholder: String },
}

impl RenderError {
    /// The identifier that had no resolved value.
    pub open spec fn placeholder_view(&self) -> Seq<char> {
        match self {
            RenderError::UnresolvedPlaceholder { placeholder } => placeholder@,
        }
    }

    /// A human-readable description of the failure.
    pub fn message(&self) -> (r: String)
        ensures
            r@ == spec_render_error_message(self.placeholder_view()),
    {
        match self {
            RenderError::UnresolvedPlaceholder { placeholder } => {
                let mut r = String::from_str("unresolved placeholder ");
                r.append(placeholder.as_str());
                r
            },
        }
    }
}

/// The text that describes an unresolved placeholder.
pub open spec fn spec_render_error_message(placeholder: Seq<char>) -> Seq<char> {
    "unresolved placeholder "@ + placeholder
}

/// Prefixes a successful rendering with already-rendered text; failures
/// pass through unchanged.
pub open spec fn spec_prepend(prefix: Seq<char>, r: Result<Seq<char>, Seq<char>>) -> Result<
    Seq<char>,
    Seq<char>,
> {
    match r {
        Ok(s) => Ok(prefix + s),
        Err(e) => Err(e),
    }
}

/// What rendering a template against a resolved address map produces:
/// `Ok` with the substituted text, or `Err` with the first placeholder
/// that has no resolved value.
pub open spec fn spec_render(t: Seq<char>, m: Map<Seq<char>, Seq<char>>) -> Result<
    Seq<char>,
    Seq<char>,
>
    decreases t.len(), 1int,
{
    if t.len() == 0 {
        Ok(Seq::empty())
    } else if t[0] == '{' {
        spec_render_placeholder(t.skip(1), Seq::empty(), m)
    } else {
        spec_prepend(seq![t[0]], spec_render(t.skip(1), m))
    }
}

/// Rendering while inside a placeholder: `name` holds the identifier
/// characters read so far; `t` is the template after them. A template that
/// ends before the closing brace keeps the scanned text literally.
pub open spec fn spec_render_placeholder(
    t: Seq<char>,
    name: Seq<char>,
    m: Map<Seq<char>, Seq<char>>,
) -> Result<Seq<char>, Seq<char>>
    decreases t.len(), 0int,
{
    if t.len() == 0 {
        Ok(seq!['{'] + name)
    } else if t[0] == '}' {
        if m.contains_key(name) {
            spec_prepend(m[name], spec_render(t.skip(1), m))
        } else {
            Err(name)
        }
    } else {
        spec_render_placeholder(t.skip(1), name.push(t[0]), m)
    }
}

proof fn lemma_prepend_empty(r: Result<Seq<char>, Seq<char>>)
    ensures
        spec_prepend(Seq::empty(), r) == r,
{
    match r {
        Ok(s) => {
            assert(Seq::empty() + s =~= s);
        },
        Err(_) => {},
    }
}

proof fn lemma_prepend_assoc(a: Seq<char>, b: Seq<char>, r: Result<Seq<char>, Seq<char>>)
    ensures
        spec_prepend(a, spec_prepend(b, r)) == spec_prepend(a + b, r),
{
    match r {
        Ok(s) => {
            assert(a + (b + s) =~= (a + b) + s);
        },
        Err(_) => {},
    }
}

/// Scanning over identifier characters does not change what the
/// placeholder renders to.
proof fn lemma_placeholder_scan(
    t: Seq<char>,
    name: Seq<char>,
    m: Map<Seq<char>, Seq<char>>,
    j: int,
)
    requires
        0 <= j <= t.len(),
        forall|k: int| 0 <= k < j ==> t[k] != '}',
    ensures
        spec_render_placeholder(t, name, m) == spec_render_placeholder(
            t.skip(j),
            name + t.subrange(0, j),
            m,
        ),
    decreases j,
{
    if j == 0 {
        assert(t.skip(0) =~= t);
        assert(name + t.subrange(0, 0) =~= name);
    } else {
        let rest = t.skip(1);
        assert(forall|k: int| 0 <= k < j - 1 ==> rest[k] != '}');
        lemma_placeholder_scan(rest, name.push(t[0]), m, j - 1);
        assert(rest.skip(j - 1) =~= t.skip(j));
        assert(name.push(t[0]) + rest.subrange(0, j - 1) =~= name + t.subrange(0, j));
    }
}

/// The index of the first closing brace at or after `start`, if any.
fn find_close(template: &str, start: usize, n: usize) -> (r: Option<usize>)
    requires
        n == template@.len(),
        start <= n,
    ensures
        match r {
            Some(j) => start <= j < n && template@[j as int] == '}' && forall|k: int|
                start <= k < j ==> template@[k] != '}',
            None => forall|k: int| start <= k < n ==> template@[k] != '}',
        },
{
    let mut j: usize = start;
    while j < n
        invariant
            n == template@.len(),
            start <= j <= n,
            forall|k: int| start <= k < j ==> template@[k] != '}',
        decreases n - j,
    {
        if template.get_char(j) == '}' {
            return Some(j);
        }
        j = j + 1;
    }
    None
}

/// Replaces every `{identifier}` in `template` by the value `addresses`
/// binds the identifier to; fails with the first unresolved placeholder,
/// returning no partial output.
pub fn render(template: &str, addresses: &AddressMap) -> (r: Result<String, RenderError>)
    ensures
        match r {
            Ok(u) => spec_render(template@, addresses@) == Ok::<Seq<char>, Seq<char>>(u@),
            Err(e) => spec_render(template@, addresses@) == Err::<Seq<char>, Seq<char>>(
                e.placeholder_view(),
            ),
        },
{
    let ghost t = template@;
    let ghost m = addresses@;
    let n = template.unicode_len();
    let mut out = String::new();
    let mut i: usize = 0;
    proof {
        assert(t.skip(0) =~= t);
        lemma_prepend_empty(spec_render(t, m));
    }
    while i < n
        invariant
            t == template@,
            m == addresses@,
            n == t.len(),
            i <= n,
            spec_render(t, m) == spec_prepend(out@, spec_render(t.skip(i as int), m)),
        decreases n - i,
    {
        let ghost out_before = out@;
        let c = template.get_char(i);
        if c == '{' {
            proof {
                assert(t.skip(i as int)[0] == t[i as int]);
                assert(t.skip(i as int).skip(1) =~= t.skip(i + 1));
            }
            match find_close(template, i + 1, n) {
                None => {
                    // no closing brace: the rest of the template is literal
                    proof {
                        lemma_placeholder_scan(t.skip(i + 1), Seq::empty(), m, n - i - 1);
                        assert(t.skip(i + 1).skip(n - i - 1) =~= t.skip(n as int));
                        assert(Seq::empty() + t.skip(i + 1).subrange(0, n - i - 1) =~= t.subrange(
                            i + 1,
                            n as int,
                        ));
                        assert(seq!['{'] + t.subrange(i + 1, n as int) =~= t.subrange(
                            i as int,
                            n as int,
                        ));
                    }
                    let tail = template.substring_char(i, n);
                    out.append(tail);
                    proof {
                        assert(out@ =~= out_before + t.subrange(i as int, n as int));
                        assert(spec_render(t.skip(i as int), m) == Ok::<Seq<char>, Seq<char>>(
                            t.subrange(i as int, n as int),
                        ));
                        assert(out@ + Seq::<char>::empty() =~= out@);
                    }
                    i = n;
                },
                Some(j) => {
                    proof {
                        assert(forall|k: int|
                            0 <= k < j - i - 1 ==> #[trigger] t.skip(i + 1)[k] == t[k + i + 1]);
                        lemma_placeholder_scan(t.skip(i + 1), Seq::empty(), m, j - i - 1);
                        assert(t.skip(i + 1).skip(j - i - 1) =~= t.skip(j as int));
                        assert(Seq::empty() + t.skip(i + 1).subrange(0, j - i - 1) =~= t.subrange(
                            i + 1,
                            j as int,
                        ));
                        assert(t.skip(j as int)[0] == t[j as int]);
                        assert(t.skip(j as int).skip(1) =~= t.skip(j + 1));
                    }
                    let name_part = template.substring_char(i + 1, j);
                    let name = String::from_str(name_part);
                    match addresses.get(&name) {
                        Some(value) => {
                            let ghost v = value@;
                            out.append(value.as_str());
                            proof {
                                lemma_prepend_assoc(
                                    out_before,
                                    v,
                                    spec_render(t.skip(j + 1), m),
                                );
                            }
                            i = j + 1;
                        },
                        None => {
                            return Err(RenderError::UnresolvedPlaceholder { placeholder: name });
                        },
                    }
                },
            }
        } else {
            proof {
                assert(t.skip(i as int)[0] == t[i as int]);
                assert(t.skip(i as int).skip(1) =~= t.skip(i + 1));
                assert(t.subrange(i as int, i + 1) =~= seq![t[i as int]]);
            }
            let one = template.substring_char(i, i + 1);
            out.append(one);
            proof {
                lemma_prepend_assoc(out_before, seq![t[i as int]], spec_render(t.skip(i + 1), m));
            }
            i = i + 1;
        }
    }
    proof {
        assert(spec_render(t.skip(n as int), m) == Ok::<Seq<char>, Seq<char>>(Seq::empty()));
        assert(out@ + Seq::<char>::empty() =~= out@);
    }
    Ok(out)
}

} // verus!
