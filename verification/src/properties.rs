//! The property/vote reconciler: value validation, fuzzy-duplicate
//! conflict detection, idempotent property creation and linking, and the
//! vote operations that keep each link's counters consistent.
use vstd::prelude::*;

use crate::distance::similar;
use crate::distance::similar_values;
use crate::model::{Class, Property, Source, Status};
use crate::text::{lower_ascii, lower_seq, str_chars};
use crate::votes::{apply_cast, apply_remove, TaxonomyLink};

verus! {

/// How a reconciler request can fail, surfaced distinctly so callers can
/// tell a bad request from a conflict and from an internal fault.
#[derive(Clone, Debug)]
pub enum PropertiesError {
    /// The vote score was not +1 or -1.
    InvalidVoteScore,
    /// The request itself was malformed.
    BadRequest { msg: String },
    /// A near-duplicate taxonomy value already exists.
    Conflict,
    /// The store failed.
    Internal,
}

/// Data required to create or link a new property to a workshop item.
#[derive(Clone, Debug)]
pub struct NewProperty {
    pub workshop_item: String,
    pub class: Class,
    pub value: String,
    /// Reasoning or justification for an inclusion.
    pub note: Option<String>,
}

/// Data required to cast, update, or remove a vote on a property.
#[derive(Clone, Debug)]
pub struct VoteData {
    pub item: String,
    pub class: Class,
    pub value: String,
    pub score: i8,
}

/// What `char::is_alphabetic` returns: the Unicode Alphabetic property, a
/// function of the character alone.
pub uninterp spec fn is_alpha(c: char) -> bool;

/// Relies on char::is_alphabetic: whether the character has the Unicode
/// Alphabetic property, depending on the character alone.
pub assume_specification[ char::is_alphabetic ](c: char) -> (r: bool)
    ensures
        r == is_alpha(c),
;

/// ASCII whitespace: space, tab, newline, form feed, carriage return.
pub open spec fn is_ascii_space(c: char) -> bool {
    c == ' ' || c == '\t' || c == '\n' || c == '\u{0C}' || c == '\r'
}

/// ASCII punctuation: the four printable non-alphanumeric ranges.
pub open spec fn is_ascii_punct(c: char) -> bool {
    ('!' <= c && c <= '/') || (':' <= c && c <= '@') || ('[' <= c && c <= '`') || ('{' <= c && c
        <= '~')
}

/// A character a property value may contain: alphabetic, whitespace, or
/// punctuation.
pub open spec fn valid_value_char(c: char) -> bool {
    is_alpha(c) || is_ascii_space(c) || is_ascii_punct(c)
}

/// A well-formed, normalized property value: between 2 and 32 characters,
/// every one alphabetic, whitespace, or punctuation.
pub open spec fn valid_value(s: Seq<char>) -> bool {
    2 <= s.len() <= 32 && (forall|i: int| 0 <= i < s.len() ==> valid_value_char(s[i]))
}

/// Decide [`valid_value_char`] for one character.
fn check_value_char(c: char) -> (r: bool)
    ensures
        r == valid_value_char(c),
{
    if c.is_alphabetic() {
        return true;
    }
    let u = c as u32;
    u == 32 || u == 9 || u == 10 || u == 12 || u == 13 || (33 <= u && u <= 47) || (58 <= u && u
        <= 64) || (91 <= u && u <= 96) || (123 <= u && u <= 126)
}

/// Normalize a submitted property value to lower case and validate it:
/// returns the normalized value exactly when it has 2 to 32 characters, all
/// alphabetic, whitespace, or punctuation, and a bad-request error
/// otherwise.
pub fn normalize_value(value: &str) -> (r: Result<String, PropertiesError>)
    ensures
        match r {
            Ok(v) => v@ == lower_seq(value@) && valid_value(v@),
            Err(e) => !valid_value(lower_seq(value@)) && e is BadRequest,
        },
{
    let lowered = lower_ascii(value);
    let chars = str_chars(lowered.as_str());
    let n = chars.len();
    if n < 2 || n > 32 {
        return Err(
            PropertiesError::BadRequest {
                msg: String::from_str("property value must be between 2 and 32 characters"),
            },
        );
    }
    let mut i: usize = 0;
    while i < n
        invariant
            i <= n,
            n == chars@.len(),
            chars@ == lowered@,
            chars@ == lower_seq(value@),
            2 <= n <= 32,
            forall|j: int| 0 <= j < i ==> valid_value_char(chars@[j]),
        decreases n - i,
    {
        if !check_value_char(chars[i]) {
            proof {
                assert(!valid_value_char(lower_seq(value@)[i as int]));
            }
            return Err(
                PropertiesError::BadRequest {
                    msg: String::from_str(
                        "property value must be alphabetic, whitespace or punctuation characters only",
                    ),
                },
            );
        }
        i = i + 1;
    }
    Ok(lowered)
}

/// Index of the property with the given (class, value) identity, or -1.
pub open spec fn prop_idx(props: Seq<Property>, class: Class, value: Seq<char>) -> int
    decreases props.len(),
{
    if props.len() == 0 {
        -1
    } else if props[0].class == class && props[0].value@ == value {
        0
    } else {
        let r = prop_idx(props.drop_first(), class, value);
        if r < 0 {
            -1
        } else {
            r + 1
        }
    }
}

/// What `prop_idx` finds: -1 exactly when no property has the identity, and
/// otherwise the first index that does.
pub proof fn lemma_prop_idx(props: Seq<Property>, class: Class, value: Seq<char>)
    ensures
        prop_idx(props, class, value) == -1 <==> (forall|j: int|
            0 <= j < props.len() ==> !props[j].is_pair(class, value)),
        prop_idx(props, class, value) != -1 ==> 0 <= prop_idx(props, class, value) < props.len()
            && props[prop_idx(props, class, value)].is_pair(class, value),
        forall|j: int| 0 <= j < prop_idx(props, class, value) ==> !props[j].is_pair(class, value),
    decreases props.len(),
{
    if props.len() == 0 {
    } else if props[0].class == class && props[0].value@ == value {
    } else {
        let rest = props.drop_first();
        lemma_prop_idx(rest, class, value);
        assert(forall|j: int| 0 <= j < rest.len() ==> rest[j] == props[j + 1]);
        let r = prop_idx(rest, class, value);
        if r == -1 {
            assert forall|j: int| 0 <= j < props.len() implies !props[j].is_pair(class, value) by {
                if j > 0 {
                    assert(props[j] == rest[j - 1]);
                }
            }
        } else {
            assert(props[r + 1] == rest[r]);
            assert forall|j: int| 0 <= j < r + 1 implies !props[j].is_pair(class, value) by {
                if j > 0 {
                    assert(props[j] == rest[j - 1]);
                }
            }
        }
    }
}

/// A first match pins `prop_idx` down.
pub proof fn lemma_prop_idx_is(props: Seq<Property>, class: Class, value: Seq<char>, i: int)
    requires
        0 <= i < props.len(),
        props[i].is_pair(class, value),
        forall|j: int| 0 <= j < i ==> !props[j].is_pair(class, value),
    ensures
        prop_idx(props, class, value) == i,
{
    lemma_prop_idx(props, class, value);
    let r = prop_idx(props, class, value);
    if r == -1 {
        assert(!props[i].is_pair(class, value));
    } else if r < i {
        assert(!props[r].is_pair(class, value));
    } else if r > i {
        assert(!props[i].is_pair(class, value));
    }
}

/// The key of a link: the item it belongs to and the (class, value) pair.
pub open spec fn link_has_key(l: TaxonomyLink, item: Seq<char>, class: Class, value: Seq<
    char,
>) -> bool {
    l.item@ == item && l.property.is_pair(class, value)
}

/// Index of the link with the given key, or -1.
pub open spec fn link_idx(links: Seq<TaxonomyLink>, item: Seq<char>, class: Class, value: Seq<
    char,
>) -> int
    decreases links.len(),
{
    if links.len() == 0 {
        -1
    } else if link_has_key(links[0], item, class, value) {
        0
    } else {
        let r = link_idx(links.drop_first(), item, class, value);
        if r < 0 {
            -1
        } else {
            r + 1
        }
    }
}

/// What `link_idx` finds: -1 exactly when no link has the key, and
/// otherwise the first index that does.
pub proof fn lemma_link_idx(links: Seq<TaxonomyLink>, item: Seq<char>, class: Class, value: Seq<
    char,
>)
    ensures
        link_idx(links, item, class, value) == -1 <==> (forall|j: int|
            0 <= j < links.len() ==> !link_has_key(links[j], item, class, value)),
        link_idx(links, item, class, value) != -1 ==> 0 <= link_idx(links, item, class, value)
            < links.len() && link_has_key(
            links[link_idx(links, item, class, value)],
            item,
            class,
            value,
        ),
        forall|j: int|
            0 <= j < link_idx(links, item, class, value) ==> !link_has_key(
                links[j],
                item,
                class,
                value,
            ),
    decreases links.len(),
{
    if links.len() == 0 {
    } else if link_has_key(links[0], item, class, value) {
    } else {
        let rest = links.drop_first();
        lemma_link_idx(rest, item, class, value);
        assert(forall|j: int| 0 <= j < rest.len() ==> rest[j] == links[j + 1]);
        let r = link_idx(rest, item, class, value);
        if r == -1 {
            assert forall|j: int| 0 <= j < links.len() implies !link_has_key(
                links[j],
                item,
                class,
                value,
            ) by {
                if j > 0 {
                    assert(links[j] == rest[j - 1]);
                }
            }
        } else {
            assert(links[r + 1] == rest[r]);
            assert forall|j: int| 0 <= j < r + 1 implies !link_has_key(
                links[j],
                item,
                class,
                value,
            ) by {
                if j > 0 {
                    assert(links[j] == rest[j - 1]);
                }
            }
        }
    }
}

/// A first match pins `link_idx` down.
pub proof fn lemma_link_idx_is(
    links: Seq<TaxonomyLink>,
    item: Seq<char>,
    class: Class,
    value: Seq<char>,
    i: int,
)
    requires
        0 <= i < links.len(),
        link_has_key(links[i], item, class, value),
        forall|j: int| 0 <= j < i ==> !link_has_key(links[j], item, class, value),
    ensures
        link_idx(links, item, class, value) == i,
{
    lemma_link_idx(links, item, class, value);
    let r = link_idx(links, item, class, value);
    if r == -1 {
        assert(!link_has_key(links[i], item, class, value));
    } else if r < i {
        assert(!link_has_key(links[r], item, class, value));
    } else if r > i {
        assert(!link_has_key(links[i], item, class, value));
    }
}

/// Whether an item with this id is known to the store.
pub open spec fn item_known(items: Seq<String>, id: Seq<char>) -> bool {
    exists|i: int| 0 <= i < items.len() && items[i]@ == id
}

/// Whether some stored value is a near-duplicate of the candidate.
pub open spec fn any_similar(props: Seq<Property>, value: Seq<char>) -> bool {
    exists|i: int| 0 <= i < props.len() && similar(props[i].value@, value)
}

/// The reconciler's store: the known item ids, the property nodes, and the
/// taxonomy links with their votes.
#[derive(Debug)]
pub struct TaxonomyStore {
    pub items: Vec<String>,
    pub properties: Vec<Property>,
    pub links: Vec<TaxonomyLink>,
}

impl TaxonomyStore {
    /// The store invariant: item ids and property identities are unique,
    /// every stored value is normalized and valid, link keys are unique,
    /// and every link satisfies the counter invariant.
    pub open spec fn wf(&self) -> bool {
        &&& forall|i: int, j: int|
            0 <= i < j < self.items@.len() ==> self.items@[i]@ != self.items@[j]@
        &&& forall|i: int, j: int|
            0 <= i < j < self.properties@.len() ==> !self.properties@[j].is_pair(
                self.properties@[i].class,
                self.properties@[i].value@,
            )
        &&& forall|i: int|
            0 <= i < self.properties@.len() ==> valid_value(#[trigger] self.properties@[i].value@)
        &&& forall|i: int, j: int|
            0 <= i < j < self.links@.len() ==> !link_has_key(
                self.links@[j],
                self.links@[i].item@,
                self.links@[i].property.class,
                self.links@[i].property.value@,
            )
        &&& forall|i: int| 0 <= i < self.links@.len() ==> (#[trigger] self.links@[i]).wf()
    }

    /// An empty store.
    pub fn new() -> (s: TaxonomyStore)
        ensures
            s.wf(),
            s.items@.len() == 0,
            s.properties@.len() == 0,
            s.links@.len() == 0,
    {
        TaxonomyStore { items: Vec::new(), properties: Vec::new(), links: Vec::new() }
    }

    /// Record an item id as known; adding an id twice changes nothing.
    pub fn register_item(&mut self, id: String)
        requires
            old(self).wf(),
        ensures
            final(self).wf(),
            final(self).properties@ == old(self).properties@,
            final(self).links@ == old(self).links@,
            item_known(final(self).items@, id@),
            forall|v: Seq<char>|
                item_known(final(self).items@, v) <==> (item_known(old(self).items@, v) || v
                    == id@),
    {
        let n = self.items.len();
        let mut i: usize = 0;
        while i < n
            invariant
                *self == *old(self),
                self.wf(),
                i <= n,
                n == self.items@.len(),
                forall|j: int| 0 <= j < i ==> self.items@[j]@ != id@,
            decreases n - i,
        {
            if self.items[i] == id {
                proof {
                    assert(self.items@[i as int]@ == id@);
                    assert(item_known(self.items@, id@));
                }
                return ;
            }
            i = i + 1;
        }
        self.items.push(id);
        proof {
            let items = self.items@;
            let n = items.len() as int;
            assert(items[n - 1]@ == id@);
            assert forall|v: Seq<char>|
                item_known(items, v) <==> (item_known(old(self).items@, v) || v == id@) by {
                if item_known(items, v) {
                    let i = choose|i: int| 0 <= i < items.len() && items[i]@ == v;
                    if i < n - 1 {
                        assert(old(self).items@[i]@ == v);
                    }
                }
                if item_known(old(self).items@, v) {
                    let i = choose|i: int|
                        0 <= i < old(self).items@.len() && old(self).items@[i]@ == v;
                    assert(items[i]@ == v);
                }
                if v == id@ {
                    assert(items[n - 1]@ == v);
                }
            }
        }
    }

    /// Whether the store knows an item with this id.
    fn knows_item(&self, id: &String) -> (r: bool)
        ensures
            r == item_known(self.items@, id@),
    {
        let n = self.items.len();
        let mut i: usize = 0;
        while i < n
            invariant
                i <= n,
                n == self.items@.len(),
                forall|j: int| 0 <= j < i ==> self.items@[j]@ != id@,
            decreases n - i,
        {
            if self.items[i] == *id {
                proof {
                    assert(self.items@[i as int]@ == id@);
                }
                return true;
            }
            i = i + 1;
        }
        false
    }

    /// First index of the property with this identity, if it exists.
    fn find_prop(&self, class: Class, value: &String) -> (r: Option<usize>)
        ensures
            match r {
                Some(i) => i == prop_idx(self.properties@, class, value@) && i
                    < self.properties@.len(),
                None => prop_idx(self.properties@, class, value@) == -1,
            },
    {
        let n = self.properties.len();
        let mut i: usize = 0;
        while i < n
            invariant
                i <= n,
                n == self.properties@.len(),
                forall|j: int| 0 <= j < i ==> !self.properties@[j].is_pair(class, value@),
            decreases n - i,
        {
            if self.properties[i].class == class && self.properties[i].value == *value {
                proof {
                    lemma_prop_idx_is(self.properties@, class, value@, i as int);
                }
                return Some(i);
            }
            i = i + 1;
        }
        proof {
            lemma_prop_idx(self.properties@, class, value@);
        }
        None
    }

    /// First index of the link with this key, if it exists.
    fn find_link(&self, item: &String, class: Class, value: &String) -> (r: Option<usize>)
        ensures
            match r {
                Some(i) => i == link_idx(self.links@, item@, class, value@) && i
                    < self.links@.len(),
                None => link_idx(self.links@, item@, class, value@) == -1,
            },
    {
        let n = self.links.len();
        let mut i: usize = 0;
        while i < n
            invariant
                i <= n,
                n == self.links@.len(),
                forall|j: int| 0 <= j < i ==> !link_has_key(self.links@[j], item@, class, value@),
            decreases n - i,
        {
            if self.links[i].item == *item && self.links[i].property.class == class
                && self.links[i].property.value == *value {
                proof {
                    lemma_link_idx_is(self.links@, item@, class, value@, i as int);
                }
                return Some(i);
            }
            i = i + 1;
        }
        proof {
            lemma_link_idx(self.links@, item@, class, value@);
        }
        None
    }

    /// Whether any stored value is a near-duplicate of the candidate.
    fn has_similar(&self, value: &String) -> (r: bool)
        requires
            self.wf(),
            value@.len() <= 32,
        ensures
            r == any_similar(self.properties@, value@),
    {
        let n = self.properties.len();
        let mut i: usize = 0;
        while i < n
            invariant
                self.wf(),
                value@.len() <= 32,
                i <= n,
                n == self.properties@.len(),
                forall|j: int| 0 <= j < i ==> !similar(self.properties@[j].value@, value@),
            decreases n - i,
        {
            if similar_values(self.properties[i].value.as_str(), value.as_str()) {
                proof {
                    assert(similar(self.properties@[i as int].value@, value@));
                }
                return true;
            }
            i = i + 1;
        }
        false
    }

    /// Submit a property for an item, as the reconciler's submission rules
    /// say: normalize to lower case; reject values outside 2..=32
    /// characters or with a character that is not alphabetic, whitespace or
    /// punctuation; reject as a conflict when a near-duplicate value exists
    /// and the exact (class, value) property does not; otherwise create the
    /// property and the Pending link idempotently.
    pub fn new_property(&mut self, new_prop: NewProperty, source: Source<String>) -> (r: Result<
        (),
        PropertiesError,
    >)
        requires
            old(self).wf(),
        ensures
            final(self).wf(),
            final(self).items@ == old(self).items@,
            ({
                let v = lower_seq(new_prop.value@);
                let class = new_prop.class;
                let item = new_prop.workshop_item@;
                match r {
                    Err(e) => final(self).properties@ == old(self).properties@ && final(self).links@
                        == old(self).links@ && if !valid_value(v) {
                        e is BadRequest
                    } else {
                        (e is Conflict && prop_idx(old(self).properties@, class, v) == -1)
                            && any_similar(old(self).properties@, v)
                    },
                    Ok(u) => (valid_value(v) && !(prop_idx(old(self).properties@, class, v) == -1
                        && any_similar(old(self).properties@, v))) && (props_after(
                        old(self).properties@,
                        final(self).properties@,
                        class,
                        v,
                    ) && links_after(
                        old(self).links@,
                        final(self).links@,
                        item,
                        class,
                        v,
                        new_prop.note,
                        source,
                    )),
                }
            }),
    {
        let NewProperty { workshop_item, class, value, note } = new_prop;
        let normalized = match normalize_value(value.as_str()) {
            Ok(v) => v,
            Err(e) => {
                return Err(e);
            },
        };
        let prop_found = self.find_prop(class, &normalized);
        proof {
            lemma_prop_idx(self.properties@, class, normalized@);
        }
        if prop_found.is_none() {
            if self.has_similar(&normalized) {
                return Err(PropertiesError::Conflict);
            }
            self.properties.push(Property { class, value: normalized.clone() });
            proof {
                let old_p = old(self).properties@;
                let new_p = self.properties@;
                let n = old_p.len() as int;
                assert(new_p[n].is_pair(class, normalized@));
                assert(valid_value(new_p[n].value@));
                assert forall|i: int, j: int| 0 <= i < j < new_p.len() implies !new_p[j].is_pair(
                    new_p[i].class,
                    new_p[i].value@,
                ) by {
                    if j < n {
                        assert(new_p[i] == old_p[i] && new_p[j] == old_p[j]);
                    } else {
                        assert(new_p[i] == old_p[i]);
                        assert(!old_p[i].is_pair(class, normalized@));
                    }
                }
            }
        }
        let link_found = self.find_link(&workshop_item, class, &normalized);
        if link_found.is_none() {
            let ghost old_links = self.links@;
            let fresh = TaxonomyLink::new(
                workshop_item,
                Property { class, value: normalized },
                note,
                source,
            );
            proof {
                lemma_link_idx(old_links, fresh.item@, class, fresh.property.value@);
            }
            self.links.push(fresh);
            proof {
                let new_l = self.links@;
                let n = old_links.len() as int;
                assert forall|i: int, j: int| 0 <= i < j < new_l.len() implies !link_has_key(
                    new_l[j],
                    new_l[i].item@,
                    new_l[i].property.class,
                    new_l[i].property.value@,
                ) by {
                    if j < n {
                        assert(new_l[i] == old_links[i] && new_l[j] == old_links[j]);
                    } else {
                        assert(new_l[i] == old_links[i]);
                        assert(!link_has_key(
                            old_links[i],
                            new_l[n].item@,
                            new_l[n].property.class,
                            new_l[n].property.value@,
                        ));
                    }
                }
                assert forall|i: int| 0 <= i < new_l.len() implies (#[trigger] new_l[i]).wf() by {
                    if i < n {
                        assert(new_l[i] == old_links[i]);
                    }
                }
            }
        }
        Ok(())
    }

    /// Cast or update a vote, as the reconciler's vote rules say: the score
    /// must be +1 or -1, the property, the item and the link must exist,
    /// and the vote is then upserted with the counters reconciled in the
    /// same step, per [`apply_cast`].
    pub fn vote(&mut self, vote_data: VoteData, userid: String) -> (r: Result<(), PropertiesError>)
        requires
            old(self).wf(),
            link_idx(old(self).links@, vote_data.item@, vote_data.class, vote_data.value@) >= 0
                ==> old(self).links@[link_idx(
                old(self).links@,
                vote_data.item@,
                vote_data.class,
                vote_data.value@,
            )].votes@.len() + 1 <= i64::MAX,
        ensures
            final(self).wf(),
            final(self).items@ == old(self).items@,
            final(self).properties@ == old(self).properties@,
            ({
                let li = link_idx(
                    old(self).links@,
                    vote_data.item@,
                    vote_data.class,
                    vote_data.value@,
                );
                match r {
                    Err(e) => final(self).links@ == old(self).links@ && if !(vote_data.score == 1
                        || vote_data.score == -1) {
                        e is InvalidVoteScore
                    } else {
                        e is BadRequest && (prop_idx(
                            old(self).properties@,
                            vote_data.class,
                            vote_data.value@,
                        ) == -1 || !item_known(old(self).items@, vote_data.item@) || li == -1)
                    },
                    Ok(u) => ((vote_data.score == 1 || vote_data.score == -1) && (prop_idx(
                        old(self).properties@,
                        vote_data.class,
                        vote_data.value@,
                    ) >= 0 && item_known(old(self).items@, vote_data.item@) && li >= 0))
                        && links_after_cast(
                        old(self).links@,
                        final(self).links@,
                        li,
                        userid@,
                        vote_data.score as int,
                    ),
                }
            }),
    {
        if vote_data.score != 1 && vote_data.score != -1 {
            return Err(PropertiesError::InvalidVoteScore);
        }
        if self.find_prop(vote_data.class, &vote_data.value).is_none() {
            return Err(
                PropertiesError::BadRequest { msg: String::from_str("no such property") },
            );
        }
        if !self.knows_item(&vote_data.item) {
            return Err(PropertiesError::BadRequest { msg: String::from_str("no such item") });
        }
        let li = match self.find_link(&vote_data.item, vote_data.class, &vote_data.value) {
            Some(i) => i,
            None => {
                return Err(
                    PropertiesError::BadRequest { msg: String::from_str("no such link") },
                );
            },
        };
        let ghost old_links = self.links@;
        let mut link = self.links.remove(li);
        link.cast_vote(userid, vote_data.score);
        self.links.insert(li, link);
        proof {
            assert(self.links@ =~= old_links.update(li as int, self.links@[li as int]));
            let new_l = self.links@;
            assert(new_l[li as int].item == old_links[li as int].item);
            assert(new_l[li as int].property == old_links[li as int].property);
            assert forall|i: int, j: int| 0 <= i < j < new_l.len() implies !link_has_key(
                new_l[j],
                new_l[i].item@,
                new_l[i].property.class,
                new_l[i].property.value@,
            ) by {
                if i != li {
                    assert(new_l[i] == old_links[i]);
                }
                if j != li {
                    assert(new_l[j] == old_links[j]);
                }
                assert(!link_has_key(
                    old_links[j],
                    old_links[i].item@,
                    old_links[i].property.class,
                    old_links[i].property.value@,
                ));
            }
            assert forall|i: int| 0 <= i < new_l.len() implies (#[trigger] new_l[i]).wf() by {
                if i != li {
                    assert(new_l[i] == old_links[i]);
                }
            }
        }
        Ok(())
    }

    /// Remove a vote, as the reconciler's removal rules say: delete the
    /// user's vote if it exists and reconcile the counters in the same
    /// step, per [`apply_remove`]; removing a vote that was never cast, or
    /// one on a link that does not exist, is a no-op and not an error.
    pub fn remove_vote(&mut self, vote_data: VoteData, userid: String) -> (r: Result<
        (),
        PropertiesError,
    >)
        requires
            old(self).wf(),
        ensures
            final(self).wf(),
            final(self).items@ == old(self).items@,
            final(self).properties@ == old(self).properties@,
            r is Ok,
            ({
                let li = link_idx(
                    old(self).links@,
                    vote_data.item@,
                    vote_data.class,
                    vote_data.value@,
                );
                if li == -1 {
                    final(self).links@ == old(self).links@
                } else {
                    links_after_remove(old(self).links@, final(self).links@, li, userid@)
                }
            }),
    {
        let li = match self.find_link(&vote_data.item, vote_data.class, &vote_data.value) {
            Some(i) => i,
            None => {
                return Ok(());
            },
        };
        let ghost old_links = self.links@;
        let mut link = self.links.remove(li);
        link.remove_vote(&userid);
        self.links.insert(li, link);
        proof {
            assert(self.links@ =~= old_links.update(li as int, self.links@[li as int]));
            let new_l = self.links@;
            assert(new_l[li as int].item == old_links[li as int].item);
            assert(new_l[li as int].property == old_links[li as int].property);
            assert forall|i: int, j: int| 0 <= i < j < new_l.len() implies !link_has_key(
                new_l[j],
                new_l[i].item@,
                new_l[i].property.class,
                new_l[i].property.value@,
            ) by {
                if i != li {
                    assert(new_l[i] == old_links[i]);
                }
                if j != li {
                    assert(new_l[j] == old_links[j]);
                }
                assert(!link_has_key(
                    old_links[j],
                    old_links[i].item@,
                    old_links[i].property.class,
                    old_links[i].property.value@,
                ));
            }
            assert forall|i: int| 0 <= i < new_l.len() implies (#[trigger] new_l[i]).wf() by {
                if i != li {
                    assert(new_l[i] == old_links[i]);
                }
            }
        }
        Ok(())
    }
}

/// How the property table looks after a submission: unchanged when the
/// (class, value) property already existed, else extended by exactly that
/// property.
pub open spec fn props_after(
    old_p: Seq<Property>,
    new_p: Seq<Property>,
    class: Class,
    v: Seq<char>,
) -> bool {
    if prop_idx(old_p, class, v) >= 0 {
        new_p == old_p
    } else {
        (new_p.len() == old_p.len() + 1 && (forall|i: int| 0 <= i < old_p.len() ==> new_p[i]
            == old_p[i])) && new_p.last().is_pair(class, v)
    }
}

/// A link as submission creates it: the given key, note and source,
/// Pending status, no votes, both counters zero.
pub open spec fn fresh_link(
    l: TaxonomyLink,
    item: Seq<char>,
    class: Class,
    v: Seq<char>,
    note: Option<String>,
    source: Source<String>,
) -> bool {
    (link_has_key(l, item, class, v) && l.note == note && l.source == source) && (l.status
        == Status::Pending && l.upvote_count == 0 && l.vote_count == 0 && l.votes@.len() == 0)
}

/// How the link table looks after a submission: unchanged when the link
/// already existed, else extended by exactly the fresh Pending link.
pub open spec fn links_after(
    old_l: Seq<TaxonomyLink>,
    new_l: Seq<TaxonomyLink>,
    item: Seq<char>,
    class: Class,
    v: Seq<char>,
    note: Option<String>,
    source: Source<String>,
) -> bool {
    if link_idx(old_l, item, class, v) >= 0 {
        new_l == old_l
    } else {
        (new_l.len() == old_l.len() + 1 && (forall|i: int| 0 <= i < old_l.len() ==> new_l[i]
            == old_l[i])) && fresh_link(new_l.last(), item, class, v, note, source)
    }
}

/// Everything of a link except its votes and counters.
pub open spec fn same_link_identity(a: TaxonomyLink, b: TaxonomyLink) -> bool {
    (a.item == b.item && a.property == b.property) && (a.note == b.note && a.status == b.status
        && a.source == b.source)
}

/// How the link table looks after a vote is cast on link `li`: only that
/// link changes, and only by [`apply_cast`] on its tally.
pub open spec fn links_after_cast(
    old_l: Seq<TaxonomyLink>,
    new_l: Seq<TaxonomyLink>,
    li: int,
    user: Seq<char>,
    score: int,
) -> bool {
    (new_l.len() == old_l.len() && (forall|i: int|
        0 <= i < old_l.len() && i != li ==> new_l[i] == old_l[i])) && (same_link_identity(
        new_l[li],
        old_l[li],
    ) && new_l[li].tally() == apply_cast(old_l[li].tally(), user, score))
}

/// How the link table looks after a vote removal on link `li`: only that
/// link changes, and only by [`apply_remove`] on its tally.
pub open spec fn links_after_remove(
    old_l: Seq<TaxonomyLink>,
    new_l: Seq<TaxonomyLink>,
    li: int,
    user: Seq<char>,
) -> bool {
    (new_l.len() == old_l.len() && (forall|i: int|
        0 <= i < old_l.len() && i != li ==> new_l[i] == old_l[i])) && (same_link_identity(
        new_l[li],
        old_l[li],
    ) && new_l[li].tally() == apply_remove(old_l[li].tally(), user))
}

} // verus!
