//! The template composer: best-effort expansion of `${NAME}` placeholders
//! against the context's fixed, closed set of field names. A token whose name
//! is not recognized is passed through as literal text, never an error.
use vstd::prelude::*;

use crate::context::Context;
use crate::text;

verus! {

/// A character that may appear in a placeholder name.
pub open spec fn is_name_char(c: char) -> bool {
    let u = c as u32;
    (0x41 <= u && u <= 0x5A) || (0x61 <= u && u <= 0x7A) || (0x30 <= u && u <= 0x39) || u == 0x5F
}

fn name_char(c: char) -> (r: bool)
    ensures
        r == is_name_char(c),
{
    let u = c as u32;
    (0x41 <= u && u <= 0x5A) || (0x61 <= u && u <= 0x7A) || (0x30 <= u && u <= 0x39) || u == 0x5F
}

/// The length of the longest prefix of `s` made of name characters.
pub open spec fn name_run(s: Seq<char>) -> int
    decreases s.len(),
{
    if s.len() > 0 && is_name_char(s[0]) {
        1 + name_run(s.drop_first())
    } else {
        0
    }
}

pub proof fn lemma_name_run_le(s: Seq<char>)
    ensures
        0 <= name_run(s) <= s.len(),
    decreases s.len(),
{
    if s.len() > 0 && is_name_char(s[0]) {
        lemma_name_run_le(s.drop_first());
    }
}

/// The name run is exactly the position of the first non-name character.
pub proof fn lemma_name_run_val(s: Seq<char>, k: int)
    requires
        0 <= k <= s.len(),
        forall|j: int| 0 <= j < k ==> is_name_char(s[j]),
        k == s.len() || !is_name_char(s[k]),
    ensures
        name_run(s) == k,
    decreases k,
{
    if k > 0 {
        assert(is_name_char(s[0]));
        let t = s.drop_first();
        assert forall|j: int| 0 <= j < k - 1 implies is_name_char(t[j]) by {
            assert(t[j] == s[j + 1]);
        }
        lemma_name_run_val(t, k - 1);
    } else {
        if s.len() > 0 {
            assert(!is_name_char(s[0]));
        }
    }
}

/// A recognized placeholder name: the closed set the composer substitutes.
pub open spec fn recognized(name: Seq<char>) -> bool {
    name == "DRAFT_MESSAGE"@ || name == "GIT_COMMITS"@ || name == "GIT_DIFF"@ || name
        == "EXAMPLES"@ || name == "TONE_PRESET"@
}

/// The text an absent optional field expands to: empty, never an error.
pub open spec fn opt_text(o: Option<String>) -> Seq<char> {
    match o {
        Some(s) => s@,
        None => Seq::empty(),
    }
}

/// The value a recognized name resolves to in the given context.
pub open spec fn spec_field(c: Context, name: Seq<char>) -> Option<Seq<char>> {
    if name == "DRAFT_MESSAGE"@ {
        Some(opt_text(c.draft))
    } else if name == "GIT_COMMITS"@ {
        Some(c.git_log@)
    } else if name == "GIT_DIFF"@ {
        Some(c.git_diff@)
    } else if name == "EXAMPLES"@ {
        Some(opt_text(c.examples))
    } else if name == "TONE_PRESET"@ {
        Some(opt_text(c.tone_preset))
    } else {
        None
    }
}

/// One left-to-right pass of best-effort substitution: a closed `${NAME}`
/// token, or a bare `$NAME` with the greedy longest name run, becomes the
/// field's text when the name is recognized; any other token is copied
/// verbatim, and substituted text is never rescanned.
pub open spec fn spec_compose(t: Seq<char>, c: Context) -> Seq<char>
    decreases t.len(),
    via spec_compose_decreases
{
    if t.len() == 0 {
        Seq::empty()
    } else if t[0] == '$' && t.len() >= 2 && t[1] == '{' {
        let n = name_run(t.skip(2));
        if n > 0 && 2 + n < t.len() && t[2 + n] == '}' {
            match spec_field(c, t.subrange(2, 2 + n)) {
                Some(v) => v + spec_compose(t.skip(3 + n), c),
                None => t.take(3 + n) + spec_compose(t.skip(3 + n), c),
            }
        } else {
            t.take(2 + n) + spec_compose(t.skip(2 + n), c)
        }
    } else if t[0] == '$' && name_run(t.skip(1)) > 0 {
        let n = name_run(t.skip(1));
        match spec_field(c, t.subrange(1, 1 + n)) {
            Some(v) => v + spec_compose(t.skip(1 + n), c),
            None => t.take(1 + n) + spec_compose(t.skip(1 + n), c),
        }
    } else {
        seq![t[0]] + spec_compose(t.skip(1), c)
    }
}

#[via_fn]
proof fn spec_compose_decreases(t: Seq<char>, c: Context) {
    if t.len() > 0 && t[0] == '$' && t.len() >= 2 && t[1] == '{' {
        lemma_name_run_le(t.skip(2));
    } else if t.len() > 0 && t[0] == '$' {
        lemma_name_run_le(t.skip(1));
    }
}

/// Whether the character sequences of two vectors are equal.
fn vec_eq(a: &Vec<char>, b: &Vec<char>) -> (r: bool)
    ensures
        r == (a@ == b@),
{
    if a.len() != b.len() {
        return false;
    }
    let n = a.len();
    let mut i: usize = 0;
    while i < n
        invariant
            i <= n,
            n == a@.len() == b@.len(),
            forall|j: int| 0 <= j < i ==> a@[j] == b@[j],
        decreases n - i,
    {
        if a[i] != b[i] {
            return false;
        }
        i = i + 1;
    }
    proof {
        assert(a@ =~= b@);
    }
    true
}

/// The context text an optional field expands to.
fn opt_chars(o: &Option<String>) -> (r: Vec<char>)
    ensures
        r@ == opt_text(*o),
{
    match o {
        Some(s) => text::chars_of(s.as_str()),
        None => Vec::new(),
    }
}

/// Resolves a placeholder name against the context's fixed field set.
fn lookup(c: &Context, name: &Vec<char>) -> (r: Option<Vec<char>>)
    ensures
        match spec_field(*c, name@) {
            Some(v) => r matches Some(w) && w@ == v,
            None => r is None,
        },
{
    if vec_eq(name, &text::chars_of("DRAFT_MESSAGE")) {
        Some(opt_chars(&c.draft))
    } else if vec_eq(name, &text::chars_of("GIT_COMMITS")) {
        Some(text::chars_of(c.git_log.as_str()))
    } else if vec_eq(name, &text::chars_of("GIT_DIFF")) {
        Some(text::chars_of(c.git_diff.as_str()))
    } else if vec_eq(name, &text::chars_of("EXAMPLES")) {
        Some(opt_chars(&c.examples))
    } else if vec_eq(name, &text::chars_of("TONE_PRESET")) {
        Some(opt_chars(&c.tone_preset))
    } else {
        None
    }
}

/// Expands every recognized `${NAME}` or bare `$NAME` placeholder in the
/// template with the corresponding context field; all other text,
/// unrecognized tokens included, is copied through unchanged.
#[verifier::rlimit(60)]
pub fn compose(template: &str, context: &Context) -> (r: String)
    ensures
        r@ == spec_compose(template@, *context),
{
    let t = text::chars_of(template);
    let n = t.len();
    let mut out: Vec<char> = Vec::new();
    let mut i: usize = 0;
    proof {
        assert(t@.skip(0) =~= t@);
        assert(out@ + spec_compose(t@.skip(0), *context) =~= spec_compose(t@, *context));
    }
    while i < n
        invariant
            i <= n,
            n == t@.len(),
            t@ == template@,
            out@ + spec_compose(t@.skip(i as int), *context) == spec_compose(t@, *context),
        decreases n - i,
    {
        let ghost s = t@.skip(i as int);
        if t[i] == '$' && i + 1 < n && t[i + 1] == '{' {
            // scan the name run after "${"
            let mut j: usize = i + 2;
            while j < n && name_char(t[j])
                invariant
                    i + 2 <= j <= n,
                    n == t@.len(),
                    forall|k: int| i + 2 <= k < j ==> is_name_char(t@[k]),
                decreases n - j,
            {
                j = j + 1;
            }
            let nr: usize = j - (i + 2);
            proof {
                assert forall|k: int| 0 <= k < nr implies is_name_char(#[trigger] t@.skip(i + 2)[k])
                    by {
                    assert(t@.skip(i + 2)[k] == t@[i + 2 + k]);
                }
                assert(nr == t@.skip(i + 2).len() || !is_name_char(t@.skip(i + 2)[nr as int]));
                lemma_name_run_val(t@.skip(i + 2), nr as int);
                assert(s.skip(2) =~= t@.skip(i + 2));
                assert(name_run(s.skip(2)) == nr);
                assert(s[0] == '$' && s.len() >= 2 && s[1] == '{');
            }
            if nr > 0 && j < n && t[j] == '}' {
                // a closed placeholder: resolve its name
                let mut name: Vec<char> = Vec::new();
                let mut k: usize = i + 2;
                while k < j
                    invariant
                        i + 2 <= k <= j <= n,
                        n == t@.len(),
                        name@ == t@.subrange(i + 2, k as int),
                    decreases j - k,
                {
                    name.push(t[k]);
                    proof {
                        assert(name@ =~= t@.subrange(i + 2, k + 1));
                    }
                    k = k + 1;
                }
                proof {
                    assert(name@ =~= s.subrange(2, 2 + nr));
                }
                let ghost old_out = out@;
                match lookup(context, &name) {
                    Some(mut v) => {
                        out.append(&mut v);
                        proof {
                            assert(spec_field(*context, s.subrange(2, 2 + nr)) is Some);
                            assert(spec_compose(s, *context) == spec_field(
                                *context,
                                s.subrange(2, 2 + nr),
                            )->0 + spec_compose(s.skip(3 + nr), *context));
                            assert(s.skip(3 + nr) =~= t@.skip(j + 1));
                            assert(out@ + spec_compose(t@.skip(j + 1), *context) =~= spec_compose(
                                t@,
                                *context,
                            ));
                        }
                    },
                    None => {
                        // unrecognized: copy the whole token through
                        let mut p: usize = i;
                        while p < j + 1
                            invariant
                                i <= p <= j + 1 <= n,
                                n == t@.len(),
                                out@ == old_out + t@.subrange(i as int, p as int),
                            decreases j + 1 - p,
                        {
                            out.push(t[p]);
                            proof {
                                assert(out@ =~= old_out + t@.subrange(i as int, p + 1));
                            }
                            p = p + 1;
                        }
                        proof {
                            assert(spec_field(*context, s.subrange(2, 2 + nr)) is None);
                            assert(spec_compose(s, *context) == s.take(3 + nr) + spec_compose(
                                s.skip(3 + nr),
                                *context,
                            ));
                            assert(t@.subrange(i as int, j + 1) =~= s.take(3 + nr));
                            assert(s.skip(3 + nr) =~= t@.skip(j + 1));
                            assert(out@ + spec_compose(t@.skip(j + 1), *context) =~= spec_compose(
                                t@,
                                *context,
                            ));
                        }
                    },
                }
                i = j + 1;
            } else {
                // no closing brace: copy the scanned chunk verbatim
                let ghost old_out = out@;
                let mut p: usize = i;
                while p < j
                    invariant
                        i <= p <= j <= n,
                        n == t@.len(),
                        out@ == old_out + t@.subrange(i as int, p as int),
                    decreases j - p,
                {
                    out.push(t[p]);
                    proof {
                        assert(out@ =~= old_out + t@.subrange(i as int, p + 1));
                    }
                    p = p + 1;
                }
                proof {
                    assert(!(nr > 0 && 2 + nr < s.len() && s[2 + nr] == '}'));
                    assert(spec_compose(s, *context) == s.take(2 + nr) + spec_compose(
                        s.skip(2 + nr),
                        *context,
                    ));
                    assert(t@.subrange(i as int, j as int) =~= s.take(2 + nr));
                    assert(s.skip(2 + nr) =~= t@.skip(j as int));
                    assert(out@ + spec_compose(t@.skip(j as int), *context) =~= spec_compose(
                        t@,
                        *context,
                    ));
                }
                i = j;
            }
        } else if t[i] == '$' {
            // a bare token: scan the greedy name run after the dollar sign
            let mut j: usize = i + 1;
            while j < n && name_char(t[j])
                invariant
                    i + 1 <= j <= n,
                    n == t@.len(),
                    forall|k: int| i + 1 <= k < j ==> is_name_char(t@[k]),
                decreases n - j,
            {
                j = j + 1;
            }
            let nr: usize = j - (i + 1);
            proof {
                assert forall|k: int| 0 <= k < nr implies is_name_char(#[trigger] t@.skip(i + 1)[k])
                    by {
                    assert(t@.skip(i + 1)[k] == t@[i + 1 + k]);
                }
                assert(nr == t@.skip(i + 1).len() || !is_name_char(t@.skip(i + 1)[nr as int]));
                lemma_name_run_val(t@.skip(i + 1), nr as int);
                assert(s.skip(1) =~= t@.skip(i + 1));
                assert(name_run(s.skip(1)) == nr);
                assert(!(s[0] == '$' && s.len() >= 2 && s[1] == '{'));
            }
            if nr > 0 {
                let mut name: Vec<char> = Vec::new();
                let mut k: usize = i + 1;
                while k < j
                    invariant
                        i + 1 <= k <= j <= n,
                        n == t@.len(),
                        name@ == t@.subrange(i + 1, k as int),
                    decreases j - k,
                {
                    name.push(t[k]);
                    proof {
                        assert(name@ =~= t@.subrange(i + 1, k + 1));
                    }
                    k = k + 1;
                }
                proof {
                    assert(name@ =~= s.subrange(1, 1 + nr));
                }
                let ghost old_out = out@;
                match lookup(context, &name) {
                    Some(mut v) => {
                        out.append(&mut v);
                        proof {
                            assert(spec_field(*context, s.subrange(1, 1 + nr)) is Some);
                            assert(spec_compose(s, *context) == spec_field(
                                *context,
                                s.subrange(1, 1 + nr),
                            )->0 + spec_compose(s.skip(1 + nr), *context));
                            assert(s.skip(1 + nr) =~= t@.skip(j as int));
                            assert(out@ + spec_compose(t@.skip(j as int), *context)
                                =~= spec_compose(t@, *context));
                        }
                    },
                    None => {
                        let mut p: usize = i;
                        while p < j
                            invariant
                                i <= p <= j <= n,
                                n == t@.len(),
                                out@ == old_out + t@.subrange(i as int, p as int),
                            decreases j - p,
                        {
                            out.push(t[p]);
                            proof {
                                assert(out@ =~= old_out + t@.subrange(i as int, p + 1));
                            }
                            p = p + 1;
                        }
                        proof {
                            assert(spec_field(*context, s.subrange(1, 1 + nr)) is None);
                            assert(spec_compose(s, *context) == s.take(1 + nr) + spec_compose(
                                s.skip(1 + nr),
                                *context,
                            ));
                            assert(t@.subrange(i as int, j as int) =~= s.take(1 + nr));
                            assert(s.skip(1 + nr) =~= t@.skip(j as int));
                            assert(out@ + spec_compose(t@.skip(j as int), *context)
                                =~= spec_compose(t@, *context));
                        }
                    },
                }
                i = j;
            } else {
                out.push(t[i]);
                proof {
                    assert(spec_compose(s, *context) == seq![s[0]] + spec_compose(
                        s.skip(1),
                        *context,
                    ));
                    assert(out@ + spec_compose(t@.skip(i + 1), *context) =~= spec_compose(
                        t@,
                        *context,
                    ));
                }
                i = i + 1;
            }
        } else {
            out.push(t[i]);
            proof {
                assert(!(s[0] == '$' && s.len() >= 2 && s[1] == '{'));
                assert(!(s[0] == '$'));
                assert(spec_compose(s, *context) == seq![s[0]] + spec_compose(
                    s.skip(1),
                    *context,
                ));
                assert(s.skip(1) =~= t@.skip(i + 1));
                assert(out@ + spec_compose(t@.skip(i + 1), *context) =~= spec_compose(
                    t@,
                    *context,
                ));
            }
            i = i + 1;
        }
    }
    proof {
        assert(t@.skip(n as int) =~= Seq::<char>::empty());
        assert(out@ =~= spec_compose(t@, *context));
    }
    text::string_of(&out)
}

/// The text a recognized or unrecognized name would stand in as a token.
pub open spec fn placeholder(name: Seq<char>) -> Seq<char> {
    "${"@ + name + "}"@
}

/// Every dollar sign in the template begins a closed `${name}` placeholder.
pub open spec fn template_wf(t: Seq<char>) -> bool
    decreases t.len(),
    via template_wf_decreases
{
    if t.len() == 0 {
        true
    } else if t[0] == '$' {
        t.len() >= 2 && t[1] == '{' && name_run(t.skip(2)) > 0 && 2 + name_run(t.skip(2)) < t.len()
            && t[2 + name_run(t.skip(2))] == '}' && template_wf(t.skip(3 + name_run(t.skip(2))))
    } else {
        template_wf(t.skip(1))
    }
}

#[via_fn]
proof fn template_wf_decreases(t: Seq<char>) {
    if t.len() > 0 && t[0] == '$' {
        lemma_name_run_le(t.skip(2));
    }
}

/// The text contains no dollar sign at all.
pub open spec fn no_dollar(s: Seq<char>) -> bool {
    forall|i: int| 0 <= i < s.len() ==> s[i] != '$'
}

/// No field value of the context contains a dollar sign, so substituted
/// text can never combine with surrounding text into a new token.
pub open spec fn context_no_dollar(c: Context) -> bool {
    no_dollar(opt_text(c.draft)) && no_dollar(c.git_log@) && no_dollar(c.git_diff@) && no_dollar(
        opt_text(c.examples),
    ) && no_dollar(opt_text(c.tone_preset))
}

/// The dollar sign at `i` begins a closed placeholder whose name the
/// composer does not recognize: text that every pass copies verbatim.
pub open spec fn passthrough_token_at(s: Seq<char>, i: int) -> bool {
    &&& i + 1 < s.len()
    &&& s[i + 1] == '{'
    &&& name_run(s.skip(i + 2)) > 0
    &&& i + 2 + name_run(s.skip(i + 2)) < s.len()
    &&& s[i + 2 + name_run(s.skip(i + 2))] == '}'
    &&& !recognized(s.subrange(i + 2, i + 2 + name_run(s.skip(i + 2))))
}

/// Every dollar sign in the text begins an unrecognized closed placeholder:
/// composing such text changes nothing.
pub open spec fn inert(s: Seq<char>) -> bool {
    forall|i: int| 0 <= i < s.len() && s[i] == '$' ==> #[trigger] passthrough_token_at(s, i)
}

/// Whether a dollar sign begins a pass-through token depends only on the
/// text from that position on, so prepending or dropping a prefix keeps it.
proof fn lemma_passthrough_shift(s: Seq<char>, p: int, i: int)
    requires
        0 <= p <= i < s.len(),
    ensures
        passthrough_token_at(s, i) <==> passthrough_token_at(s.skip(p), i - p),
{
    let b = s.skip(p);
    if i + 1 < s.len() {
        assert(b[i - p + 1] == s[i + 1]);
        assert(b.skip(i - p + 2) =~= s.skip(i + 2));
        let n = name_run(s.skip(i + 2));
        lemma_name_run_le(s.skip(i + 2));
        if n > 0 && i + 2 + n < s.len() {
            assert(b[i - p + 2 + n] == s[i + 2 + n]);
            assert(b.subrange(i - p + 2, i - p + 2 + n) =~= s.subrange(i + 2, i + 2 + n));
        }
    }
}

/// Prepending dollar-free text to inert text keeps it inert.
proof fn lemma_inert_prepend(v: Seq<char>, s: Seq<char>)
    requires
        no_dollar(v),
        inert(s),
    ensures
        inert(v + s),
{
    let w = v + s;
    assert forall|i: int| 0 <= i < w.len() && w[i] == '$' implies #[trigger] passthrough_token_at(
        w,
        i,
    ) by {
        assert(i >= v.len());
        assert(s[i - v.len()] == '$');
        assert(passthrough_token_at(s, i - v.len()));
        assert(w.skip(v.len() as int) =~= s);
        lemma_passthrough_shift(w, v.len() as int, i);
    }
}

/// A dollar sign is not a name character.
proof fn lemma_dollar_not_name_char()
    ensures
        !is_name_char('$'),
        !is_name_char('{'),
        !is_name_char('}'),
{
}

/// A recognized name is a nonempty run of name characters.
proof fn lemma_recognized_name_chars(name: Seq<char>)
    requires
        recognized(name),
    ensures
        name.len() > 0,
        forall|j: int| 0 <= j < name.len() ==> is_name_char(#[trigger] name[j]),
{
    reveal_strlit("DRAFT_MESSAGE");
    reveal_strlit("GIT_COMMITS");
    reveal_strlit("GIT_DIFF");
    reveal_strlit("EXAMPLES");
    reveal_strlit("TONE_PRESET");
}

/// Composing a well-formed template against a dollar-free context yields
/// inert text: every dollar sign of the output begins an unrecognized
/// closed placeholder copied from the template.
proof fn lemma_compose_inert(t: Seq<char>, c: Context)
    requires
        template_wf(t),
        context_no_dollar(c),
    ensures
        inert(spec_compose(t, c)),
    decreases t.len(),
{
    if t.len() == 0 {
        assert(inert(spec_compose(t, c)));
    } else if t[0] == '$' {
        let n = name_run(t.skip(2));
        lemma_name_run_le(t.skip(2));
        let name = t.subrange(2, 2 + n);
        let rest = t.skip(3 + n);
        lemma_compose_inert(rest, c);
        let out_rest = spec_compose(rest, c);
        assert forall|j: int| 0 <= j < n implies is_name_char(#[trigger] t.skip(2)[j]) by {
            lemma_name_run_front(t.skip(2), j);
        }
        match spec_field(c, name) {
            Some(v) => {
                assert(no_dollar(v));
                lemma_inert_prepend(v, out_rest);
                assert(spec_compose(t, c) == v + out_rest);
            },
            None => {
                let chunk = t.take(3 + n);
                let out = chunk + out_rest;
                assert(spec_compose(t, c) == out);
                lemma_dollar_not_name_char();
                assert forall|i: int| 0 <= i < out.len() && out[i] == '$' implies
                    #[trigger] passthrough_token_at(out, i) by {
                    if i < 3 + n {
                        assert(chunk[i] == t[i]);
                        if 2 <= i < 2 + n {
                            assert(is_name_char(t.skip(2)[i - 2]));
                            assert(t[i] == t.skip(2)[i - 2]);
                            assert(false);
                        }
                        if i == 1 || i == 2 + n {
                            assert(false);
                        }
                        assert(i == 0);
                        assert(out[1] == t[1] && t[1] == '{');
                        assert forall|j: int| 0 <= j < n implies is_name_char(
                            #[trigger] out.skip(2)[j],
                        ) by {
                            assert(out.skip(2)[j] == t[j + 2]);
                            assert(t[j + 2] == t.skip(2)[j]);
                        }
                        assert(out.skip(2)[n] == t[2 + n]);
                        assert(!is_name_char(out.skip(2)[n]));
                        lemma_name_run_val(out.skip(2), n);
                        assert(out[2 + n] == t[2 + n]);
                        assert(out.subrange(2, 2 + n) =~= name);
                        assert(passthrough_token_at(out, 0));
                    } else {
                        assert(out[i] == out_rest[i - (3 + n)]);
                        assert(passthrough_token_at(out_rest, i - (3 + n)));
                        assert(out.skip(3 + n) =~= out_rest);
                        lemma_passthrough_shift(out, 3 + n, i);
                    }
                }
            },
        }
    } else {
        let rest = t.skip(1);
        lemma_compose_inert(rest, c);
        let out = seq![t[0]] + spec_compose(rest, c);
        assert(spec_compose(t, c) == out);
        lemma_inert_prepend(seq![t[0]], spec_compose(rest, c));
    }
}

/// The characters of the name run are name characters.
proof fn lemma_name_run_front(s: Seq<char>, j: int)
    requires
        0 <= j < name_run(s),
    ensures
        is_name_char(s[j]),
    decreases j,
{
    lemma_name_run_le(s);
    if j > 0 {
        lemma_name_run_front(s.drop_first(), j - 1);
        assert(s.drop_first()[j - 1] == s[j]);
    }
}

/// Composing inert text changes nothing, whatever the context.
proof fn lemma_compose_inert_fixed(s: Seq<char>, c: Context)
    requires
        inert(s),
    ensures
        spec_compose(s, c) == s,
    decreases s.len(),
{
    if s.len() == 0 {
        assert(spec_compose(s, c) =~= s);
    } else if s[0] == '$' {
        assert(passthrough_token_at(s, 0));
        let n = name_run(s.skip(2));
        let rest = s.skip(3 + n);
        assert forall|i: int| 0 <= i < rest.len() && rest[i] == '$' implies
            #[trigger] passthrough_token_at(rest, i) by {
            assert(s[3 + n + i] == rest[i]);
            assert(passthrough_token_at(s, 3 + n + i));
            lemma_passthrough_shift(s, 3 + n, 3 + n + i);
        }
        lemma_compose_inert_fixed(rest, c);
        assert(spec_compose(s, c) == s.take(3 + n) + rest);
        assert(s.take(3 + n) + rest =~= s);
    } else {
        let rest = s.skip(1);
        assert forall|i: int| 0 <= i < rest.len() && rest[i] == '$' implies
            #[trigger] passthrough_token_at(rest, i) by {
            assert(s[1 + i] == rest[i]);
            assert(passthrough_token_at(s, 1 + i));
            lemma_passthrough_shift(s, 1, 1 + i);
        }
        lemma_compose_inert_fixed(rest, c);
        assert(spec_compose(s, c) == seq![s[0]] + rest);
        assert(seq![s[0]] + rest =~= s);
    }
}

/// Inert text holds no occurrence of a recognized placeholder token.
proof fn lemma_inert_no_recognized_token(s: Seq<char>, name: Seq<char>)
    requires
        inert(s),
        recognized(name),
    ensures
        !text::has_sub(s, placeholder(name)),
{
    reveal_strlit("${");
    reveal_strlit("}");
    let tok = placeholder(name);
    lemma_recognized_name_chars(name);
    lemma_dollar_not_name_char();
    if text::has_sub(s, tok) {
        let i = choose|i: int| text::occurs_at(s, tok, i);
        assert(s.subrange(i, i + tok.len()) == tok);
        assert forall|j: int| 0 <= j < tok.len() implies s[i + j] == #[trigger] tok[j] by {
            assert(s.subrange(i, i + tok.len())[j] == s[i + j]);
        }
        assert(tok[0] == '$');
        assert(s[i] == '$');
        assert(passthrough_token_at(s, i));
        let n = name_run(s.skip(i + 2));
        assert forall|j: int| 0 <= j < name.len() implies is_name_char(
            #[trigger] s.skip(i + 2)[j],
        ) by {
            assert(tok[2 + j] == name[j]);
            assert(s.skip(i + 2)[j] == s[i + 2 + j]);
        }
        assert(tok[2 + name.len() as int] == '}');
        assert(s.skip(i + 2)[name.len() as int] == s[i + 2 + name.len() as int]);
        assert(!is_name_char(s.skip(i + 2)[name.len() as int]));
        lemma_name_run_val(s.skip(i + 2), name.len() as int);
        assert(n == name.len());
        assert forall|j: int| 0 <= j < n implies s.subrange(i + 2, i + 2 + n)[j] == #[trigger] name[j]
            by {
            assert(tok[2 + j] == name[j]);
            assert(s[i + 2 + j] == tok[2 + j]);
            assert(s.subrange(i + 2, i + 2 + n)[j] == s[i + 2 + j]);
        }
        assert(s.subrange(i + 2, i + 2 + n) =~= name);
        assert(!recognized(name));
    }
}

/// Best-effort substitution resolves everything it recognizes: over a
/// well-formed template and a context whose field values contain no dollar
/// sign, the composed output holds no occurrence of any recognized
/// placeholder token, and composing the output again, against the same or
/// any other context, gives it back unchanged.
pub proof fn lemma_compose_resolves_all(t: Seq<char>, c: Context, c2: Context)
    requires
        template_wf(t),
        context_no_dollar(c),
    ensures
        forall|name: Seq<char>|
            recognized(name) ==> !text::has_sub(spec_compose(t, c), #[trigger] placeholder(name)),
        spec_compose(spec_compose(t, c), c2) == spec_compose(t, c),
{
    lemma_compose_inert(t, c);
    let out = spec_compose(t, c);
    assert forall|name: Seq<char>| recognized(name) implies !text::has_sub(
        out,
        #[trigger] placeholder(name),
    ) by {
        lemma_inert_no_recognized_token(out, name);
    }
    lemma_compose_inert_fixed(out, c2);
}

} // verus!
