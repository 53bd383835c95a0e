//! Plumbing around the opaque extraction backend: prompt population, output
//! sanitising, the classification record it returns, and the single-slot
//! admission gate in front of it.
use vstd::prelude::*;

use crate::model::Class;
use crate::text::{
    chars_string, find_char, find_char_vec, lemma_find_char, replace_chars, replace_seq, str_chars,
};

verus! {

/// The classification record the extraction backend returns: four lists of
/// short property values.
#[derive(Clone, Debug)]
pub struct MLProperties {
    pub genres: Vec<String>,
    pub themes: Vec<String>,
    pub types: Vec<String>,
    pub features: Vec<String>,
}

/// What [`sanitise_output`] computes: drop everything before the first `{`
/// (keep all if there is none), then strip, in this order, `<br>`, `###`,
/// `>`, markdown code fences, and a repeated `Output:` marker.
pub open spec fn sanitise_spec(s: Seq<char>) -> Seq<char> {
    let i = find_char(s, '{');
    let t = if i < 0 {
        s
    } else {
        s.skip(i)
    };
    let e = Seq::<char>::empty();
    replace_seq(
        replace_seq(
            replace_seq(
                replace_seq(replace_seq(replace_seq(t, "<br>"@, e), "###"@, e), ">"@, e),
                "```json"@,
                e,
            ),
            "```"@,
            e,
        ),
        "Output:"@,
        e,
    )
}

/// Strip backend chatter from a model reply so that only the JSON object
/// remains: text before the first `{` goes, as do stray markup fragments
/// and code fences; see [`sanitise_spec`] for the exact order.
pub fn sanitise_output(string: String) -> (r: String)
    ensures
        r@ == sanitise_spec(string@),
{
    proof {
        reveal_strlit("<br>");
        reveal_strlit("###");
        reveal_strlit(">");
        reveal_strlit("```json");
        reveal_strlit("```");
        reveal_strlit("Output:");
    }
    let chars = str_chars(string.as_str());
    let n = chars.len();
    let mut t: Vec<char> = Vec::new();
    let start: usize = match find_char_vec(&chars, '{') {
        Some(i) => i,
        None => 0,
    };
    proof {
        lemma_find_char(string@, '{');
    }
    let mut i: usize = start;
    while i < n
        invariant
            start <= i <= n,
            n == chars@.len(),
            t@ == chars@.subrange(start as int, i as int),
        decreases n - i,
    {
        t.push(chars[i]);
        proof {
            assert(t@ =~= chars@.subrange(start as int, i + 1));
        }
        i = i + 1;
    }
    proof {
        assert(t@ =~= chars@.skip(start as int));
        if find_char(string@, '{') < 0 {
            assert(t@ =~= string@);
        }
    }
    let empty: Vec<char> = Vec::new();
    let t = replace_chars(&t, &str_chars("<br>"), &empty);
    let t = replace_chars(&t, &str_chars("###"), &empty);
    let t = replace_chars(&t, &str_chars(">"), &empty);
    let t = replace_chars(&t, &str_chars("```json"), &empty);
    let t = replace_chars(&t, &str_chars("```"), &empty);
    let t = replace_chars(&t, &str_chars("Output:"), &empty);
    chars_string(&t)
}

/// What [`populate_prompt`] computes: the prompt template with `[TITLE]` and
/// `[DESCRIPTION]` filled in and every tab removed, since a trailing tab can
/// make the model repeat the end of its prompt.
pub open spec fn populate_spec(prompt: Seq<char>, title: Seq<char>, description: Seq<char>) -> Seq<
    char,
> {
    replace_seq(
        replace_seq(replace_seq(prompt, "[TITLE]"@, title), "[DESCRIPTION]"@, description),
        "\t"@,
        Seq::<char>::empty(),
    )
}

/// Fill a prompt template with an item's title and description and drop
/// every tab character.
pub fn populate_prompt(prompt: &str, title: &str, description: &str) -> (r: String)
    ensures
        r@ == populate_spec(prompt@, title@, description@),
{
    proof {
        reveal_strlit("[TITLE]");
        reveal_strlit("[DESCRIPTION]");
        reveal_strlit("\t");
    }
    let t = replace_chars(&str_chars(prompt), &str_chars("[TITLE]"), &str_chars(title));
    let t = replace_chars(&t, &str_chars("[DESCRIPTION]"), &str_chars(description));
    let empty: Vec<char> = Vec::new();
    let t = replace_chars(&t, &str_chars("\t"), &empty);
    chars_string(&t)
}

/// The (class, value) view of a pair vector.
pub open spec fn pairs_view(r: Seq<(Class, String)>) -> Seq<(Class, Seq<char>)> {
    r.map_values(|q: (Class, String)| (q.0, q.1@))
}

/// The (class, value) pairs a classification record stands for, in the
/// order the reconciler receives them: genres, themes, types, features.
pub open spec fn pairs_spec(p: &MLProperties) -> Seq<(Class, Seq<char>)> {
    p.genres@.map_values(|v: String| (Class::Genre, v@)) + p.themes@.map_values(
        |v: String| (Class::Theme, v@),
    ) + p.types@.map_values(|v: String| (Class::Type, v@)) + p.features@.map_values(
        |v: String| (Class::Feature, v@),
    )
}

/// Flatten a classification record into the (class, value) pairs that are
/// submitted one by one as system-sourced properties.
pub fn classification_pairs(p: &MLProperties) -> (r: Vec<(Class, String)>)
    ensures
        pairs_view(r@) == pairs_spec(p),
{
    let mut r: Vec<(Class, String)> = Vec::new();
    let lg = p.genres.len();
    let lh = p.themes.len();
    let lt = p.types.len();
    let lf = p.features.len();
    let mut i: usize = 0;
    while i < lg
        invariant
            i <= lg,
            lg == p.genres@.len(),
            r@.len() == i,
            forall|j: int| #![trigger r@[j]]
                0 <= j < i ==> r@[j].0 == Class::Genre && r@[j].1@ == p.genres@[j]@,
        decreases lg - i,
    {
        r.push((Class::Genre, p.genres[i].clone()));
        proof {
            assert(r@[i as int].0 == Class::Genre && r@[i as int].1@ == p.genres@[i as int]@);
        }
        i = i + 1;
    }
    let mut i: usize = 0;
    while i < lh
        invariant
            i <= lh,
            lg == p.genres@.len(),
            lh == p.themes@.len(),
            r@.len() == lg + i,
            forall|j: int| #![trigger r@[j]]
                0 <= j < lg ==> r@[j].0 == Class::Genre && r@[j].1@ == p.genres@[j]@,
            forall|j: int| #![trigger r@[j]]
                lg <= j < lg + i ==> r@[j].0 == Class::Theme && r@[j].1@ == p.themes@[j - lg]@,
        decreases lh - i,
    {
        r.push((Class::Theme, p.themes[i].clone()));
        proof {
            assert(r@[lg + i as int].0 == Class::Theme && r@[lg + i as int].1@ == p.themes@[
                i as int
            ]@);
        }
        i = i + 1;
    }
    let mut i: usize = 0;
    while i < lt
        invariant
            i <= lt,
            lg == p.genres@.len(),
            lh == p.themes@.len(),
            lt == p.types@.len(),
            r@.len() == lg + lh + i,
            forall|j: int| #![trigger r@[j]]
                0 <= j < lg ==> r@[j].0 == Class::Genre && r@[j].1@ == p.genres@[j]@,
            forall|j: int| #![trigger r@[j]]
                lg <= j < lg + lh ==> r@[j].0 == Class::Theme && r@[j].1@ == p.themes@[j - lg]@,
            forall|j: int| #![trigger r@[j]]
                lg + lh <= j < lg + lh + i ==> r@[j].0 == Class::Type && r@[j].1@ == p.types@[
                    j - lg - lh
                ]@,
        decreases lt - i,
    {
        r.push((Class::Type, p.types[i].clone()));
        proof {
            assert(r@[lg + lh + i as int].0 == Class::Type && r@[lg + lh + i as int].1@
                == p.types@[i as int]@);
        }
        i = i + 1;
    }
    let mut i: usize = 0;
    while i < lf
        invariant
            i <= lf,
            lg == p.genres@.len(),
            lh == p.themes@.len(),
            lt == p.types@.len(),
            lf == p.features@.len(),
            r@.len() == lg + lh + lt + i,
            forall|j: int| #![trigger r@[j]]
                0 <= j < lg ==> r@[j].0 == Class::Genre && r@[j].1@ == p.genres@[j]@,
            forall|j: int| #![trigger r@[j]]
                lg <= j < lg + lh ==> r@[j].0 == Class::Theme && r@[j].1@ == p.themes@[j - lg]@,
            forall|j: int| #![trigger r@[j]]
                lg + lh <= j < lg + lh + lt ==> r@[j].0 == Class::Type && r@[j].1@ == p.types@[
                    j - lg - lh
                ]@,
            forall|j: int| #![trigger r@[j]]
                lg + lh + lt <= j < lg + lh + lt + i ==> r@[j].0 == Class::Feature && r@[j].1@
                    == p.features@[j - lg - lh - lt]@,
        decreases lf - i,
    {
        r.push((Class::Feature, p.features[i].clone()));
        proof {
            assert(r@[lg + lh + lt + i as int].0 == Class::Feature && r@[lg + lh + lt + i as int].1@
                == p.features@[i as int]@);
        }
        i = i + 1;
    }
    proof {
        let spec = pairs_spec(p);
        let view = pairs_view(r@);
        assert forall|j: int| 0 <= j < view.len() implies view[j] == spec[j] by {
            assert(view[j] == (r@[j].0, r@[j].1@));
            if j < lg {
                assert(spec[j] == (Class::Genre, p.genres@[j]@));
            } else if j < lg + lh {
                assert(spec[j] == (Class::Theme, p.themes@[j - lg]@));
            } else if j < lg + lh + lt {
                assert(spec[j] == (Class::Type, p.types@[j - lg - lh]@));
            } else {
                assert(spec[j] == (Class::Feature, p.features@[j - lg - lh - lt]@));
            }
        }
        assert(view =~~= spec);
    }
    r
}

/// Merge the records of the two prompt runs into one, keeping each list's
/// order: the genre run's entries follow the feature run's.
pub fn merge_properties(mut base: MLProperties, extra: MLProperties) -> (r: MLProperties)
    ensures
        r.genres@ == base.genres@ + extra.genres@,
        r.themes@ == base.themes@ + extra.themes@,
        r.types@ == base.types@ + extra.types@,
        r.features@ == base.features@ + extra.features@,
{
    let mut extra = extra;
    base.genres.append(&mut extra.genres);
    base.themes.append(&mut extra.themes);
    base.types.append(&mut extra.types);
    base.features.append(&mut extra.features);
    base
}

/// Keep a lookup result only when it holds both fields.
pub fn extraction_request(title: Option<String>, description: Option<String>) -> (r: Option<
    (String, String),
>)
    ensures
        match r {
            Some(p) => (title matches Some(t) && p.0 == t) && (description matches Some(d) && p.1
                == d),
            None => title is None || description is None,
        },
{
    match (title, description) {
        (Some(t), Some(d)) => Some((t, d)),
        _ => None,
    }
}

/// The single-slot admission gate in front of the extraction backend: at
/// most one request is in flight at a time, the system's only hard
/// backpressure point.
#[derive(Clone, Copy, Debug)]
pub struct InferenceGate {
    pub in_flight: bool,
}

impl InferenceGate {
    /// A fresh gate with its slot free.
    pub fn new() -> (g: InferenceGate)
        ensures
            !g.in_flight,
    {
        InferenceGate { in_flight: false }
    }

    /// Claim the single slot: succeeds exactly when it is free, and the
    /// slot is taken afterwards in either case.
    pub fn try_acquire(&mut self) -> (granted: bool)
        ensures
            granted == !old(self).in_flight,
            final(self).in_flight,
    {
        let granted = !self.in_flight;
        self.in_flight = true;
        granted
    }

    /// Release the slot after the backend call finishes.
    pub fn release(&mut self)
        ensures
            !final(self).in_flight,
    {
        self.in_flight = false;
    }
}

} // verus!
