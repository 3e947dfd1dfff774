//! The curated rule tables: which recordings to leave out, and which
//! identifier to use for recordings that the history reports without one.

use vstd::prelude::*;
use crate::recording::{optional_text, Recording, RecordingView};

verus! {

/// A pattern over recordings. A field that is absent accepts any value; a
/// field that is present accepts exactly that value.
#[derive(Debug, Clone, PartialEq, Eq)]
pub struct BadDataMatcher {
    pub artist_name: Option<String>,
    pub release_name: Option<String>,
    pub track_name: Option<String>,
}

/// The mathematical content of a [`BadDataMatcher`].
pub struct BadDataMatcherView {
    pub artist_name: Option<Seq<char>>,
    pub release_name: Option<Seq<char>>,
    pub track_name: Option<Seq<char>>,
}

/// Whether one field of a pattern accepts a value.
pub open spec fn field_accepts(pattern: Option<Seq<char>>, value: Seq<char>) -> bool {
    pattern matches Some(p) ==> p == value
}

impl BadDataMatcherView {
    /// Whether the pattern accepts the recording: every field that is
    /// present equals the recording's field of the same name.
    pub open spec fn accepts(self, recording: RecordingView) -> bool {
        &&& field_accepts(self.artist_name, recording.artist_name)
        &&& field_accepts(self.release_name, recording.release_name)
        &&& field_accepts(self.track_name, recording.track_name)
    }
}

impl View for BadDataMatcher {
    type V = BadDataMatcherView;

    open spec fn view(&self) -> BadDataMatcherView {
        BadDataMatcherView {
            artist_name: optional_text(self.artist_name),
            release_name: optional_text(self.release_name),
            track_name: optional_text(self.track_name),
        }
    }
}

/// Compares one field of a pattern with a value.
fn field_matches(pattern: &Option<String>, value: &String) -> (accepted: bool)
    ensures
        accepted == field_accepts(optional_text(*pattern), value@),
{
    match pattern {
        Some(name) => *name == *value,
        None => true,
    }
}

impl BadDataMatcher {
    /// Tells whether the pattern accepts the recording. Comparison is exact
    /// and case-sensitive.
    pub fn matches(&self, recording: &Recording) -> (accepted: bool)
        ensures
            accepted == self@.accepts(recording@),
    {
        let artist = field_matches(&self.artist_name, &recording.artist_name);
        let release = field_matches(&self.release_name, &recording.release_name);
        let track = field_matches(&self.track_name, &recording.track_name);
        artist && release && track
    }
}

/// A rule that supplies the identifier for recordings that the history
/// reports without one. The replacement may itself be absent: the rule then
/// marks the recording as known to have no identifier.
#[derive(Debug, Clone, PartialEq, Eq)]
pub struct BadData {
    pub match_with: BadDataMatcher,
    pub recording_mbid: Option<String>,
}

/// The mathematical content of a [`BadData`] rule.
pub struct BadDataView {
    pub match_with: BadDataMatcherView,
    pub recording_mbid: Option<Seq<char>>,
}

impl View for BadData {
    type V = BadDataView;

    open spec fn view(&self) -> BadDataView {
        BadDataView {
            match_with: self.match_with@,
            recording_mbid: optional_text(self.recording_mbid),
        }
    }
}

/// What the rules decide about one recording.
#[derive(Debug, Clone, PartialEq, Eq)]
pub enum ResolvedIdentity {
    /// A skip rule accepts the recording: it is left out entirely.
    Skip,
    /// No identifier is known for the recording.
    Unresolvable,
    /// The identifier under which the duration is looked up.
    Id(String),
}

/// The mathematical content of a [`ResolvedIdentity`].
pub enum ResolvedIdentityView {
    Skip,
    Unresolvable,
    Id(Seq<char>),
}

impl View for ResolvedIdentity {
    type V = ResolvedIdentityView;

    open spec fn view(&self) -> ResolvedIdentityView {
        match self {
            ResolvedIdentity::Skip => ResolvedIdentityView::Skip,
            ResolvedIdentity::Unresolvable => ResolvedIdentityView::Unresolvable,
            ResolvedIdentity::Id(id) => ResolvedIdentityView::Id(id@),
        }
    }
}

/// The views of a sequence of patterns.
pub open spec fn matcher_views(s: Seq<BadDataMatcher>) -> Seq<BadDataMatcherView> {
    s.map_values(|m: BadDataMatcher| m@)
}

/// The views of a sequence of replacement rules.
pub open spec fn remap_views(s: Seq<BadData>) -> Seq<BadDataView> {
    s.map_values(|b: BadData| b@)
}

/// Whether some pattern of the list accepts the recording.
pub open spec fn any_accepts(rules: Seq<BadDataMatcherView>, recording: RecordingView) -> bool {
    exists|i: int| 0 <= i < rules.len() && #[trigger] rules[i].accepts(recording)
}

/// Whether rule `i` is the earliest rule of the list whose pattern accepts
/// the recording.
pub open spec fn is_first_match(remaps: Seq<BadDataView>, recording: RecordingView, i: int) -> bool {
    &&& 0 <= i < remaps.len()
    &&& remaps[i].match_with.accepts(recording)
    &&& forall|j: int| 0 <= j < i ==> !(#[trigger] remaps[j]).match_with.accepts(recording)
}

/// The position of the earliest rule whose pattern accepts the recording,
/// if any rule does.
pub open spec fn first_match(remaps: Seq<BadDataView>, recording: RecordingView) -> Option<int> {
    if exists|i: int| is_first_match(remaps, recording, i) {
        Some(choose|i: int| is_first_match(remaps, recording, i))
    } else {
        None
    }
}

/// The identity that a replacement stands for: the identifier if there is
/// one, and otherwise none.
pub open spec fn replacement_identity(replacement: Option<Seq<char>>) -> ResolvedIdentityView {
    match replacement {
        Some(id) => ResolvedIdentityView::Id(id),
        None => ResolvedIdentityView::Unresolvable,
    }
}

/// The identity of a recording under the two rule tables. Skip rules come
/// first; then the recording's own identifier; then the replacement of the
/// earliest replacement rule that accepts the recording.
pub open spec fn resolve_spec(
    recording: RecordingView,
    skip_rules: Seq<BadDataMatcherView>,
    remap_rules: Seq<BadDataView>,
) -> ResolvedIdentityView {
    if any_accepts(skip_rules, recording) {
        ResolvedIdentityView::Skip
    } else if let Some(id) = recording.recording_mbid {
        ResolvedIdentityView::Id(id)
    } else {
        match first_match(remap_rules, recording) {
            Some(i) => replacement_identity(remap_rules[i].recording_mbid),
            None => ResolvedIdentityView::Unresolvable,
        }
    }
}

/// At most one rule is the earliest that accepts a recording.
pub proof fn lemma_first_match_unique(
    remaps: Seq<BadDataView>,
    recording: RecordingView,
    i: int,
    j: int,
)
    requires
        is_first_match(remaps, recording, i),
        is_first_match(remaps, recording, j),
    ensures
        i == j,
{
    if i < j {
        assert(!remaps[i].match_with.accepts(recording));
    } else if j < i {
        assert(!remaps[j].match_with.accepts(recording));
    }
}

/// Tells whether some pattern of the list accepts the recording.
pub fn any_matches(rules: &[BadDataMatcher], recording: &Recording) -> (found: bool)
    ensures
        found == any_accepts(matcher_views(rules@), recording@),
{
    let mut i: usize = 0;
    while i < rules.len()
        invariant
            i <= rules.len(),
            forall|k: int| 0 <= k < i ==> !(#[trigger] matcher_views(rules@)[k]).accepts(recording@),
        decreases rules.len() - i,
    {
        if rules[i].matches(recording) {
            assert(matcher_views(rules@)[i as int].accepts(recording@));
            return true;
        }
        i += 1;
    }
    false
}

/// Finds the earliest replacement rule whose pattern accepts the recording.
pub fn find_remap(remaps: &[BadData], recording: &Recording) -> (found: Option<usize>)
    ensures
        match found {
            Some(i) => first_match(remap_views(remaps@), recording@) == Some(i as int),
            None => first_match(remap_views(remaps@), recording@) is None,
        },
{
    let ghost rules = remap_views(remaps@);
    let mut i: usize = 0;
    while i < remaps.len()
        invariant
            i <= remaps.len(),
            rules == remap_views(remaps@),
            forall|k: int| 0 <= k < i ==> !(#[trigger] rules[k]).match_with.accepts(recording@),
        decreases remaps.len() - i,
    {
        if remaps[i].match_with.matches(recording) {
            proof {
                assert(is_first_match(rules, recording@, i as int));
                let chosen: int = choose|c: int| is_first_match(rules, recording@, c);
                lemma_first_match_unique(rules, recording@, i as int, chosen);
            }
            return Some(i);
        }
        i += 1;
    }
    proof {
        assert forall|c: int| !is_first_match(rules, recording@, c) by {
            if 0 <= c < rules.len() {
                assert(!rules[c].match_with.accepts(recording@));
            }
        }
    }
    None
}

/// Decides under which identifier, if any, the duration of a recording is
/// looked up. The decision depends on the three arguments alone.
pub fn resolve(
    recording: &Recording,
    skip_rules: &[BadDataMatcher],
    remap_rules: &[BadData],
) -> (identity: ResolvedIdentity)
    ensures
        identity@ == resolve_spec(
            recording@,
            matcher_views(skip_rules@),
            remap_views(remap_rules@),
        ),
{
    if any_matches(skip_rules, recording) {
        return ResolvedIdentity::Skip;
    }
    match &recording.recording_mbid {
        Some(id) => ResolvedIdentity::Id(id.clone()),
        None => match find_remap(remap_rules, recording) {
            Some(i) => match &remap_rules[i].recording_mbid {
                Some(id) => ResolvedIdentity::Id(id.clone()),
                None => ResolvedIdentity::Unresolvable,
            },
            None => ResolvedIdentity::Unresolvable,
        },
    }
}

/// A recording that a skip rule accepts is skipped, whatever identifier it
/// carries and whatever the replacement rules say.
pub proof fn lemma_skip_takes_precedence(
    recording: RecordingView,
    skip_rules: Seq<BadDataMatcherView>,
    remap_rules: Seq<BadDataView>,
)
    requires
        any_accepts(skip_rules, recording),
    ensures
        resolve_spec(recording, skip_rules, remap_rules) == ResolvedIdentityView::Skip,
{
}

/// For a recording that carries its own identifier the replacement rules
/// play no part: any two tables of replacement rules give the same
/// identity, and unless the recording is skipped that identity is the
/// recording's own identifier.
pub proof fn lemma_own_identifier_ignores_remaps(
    recording: RecordingView,
    skip_rules: Seq<BadDataMatcherView>,
    remap_rules: Seq<BadDataView>,
    other_remap_rules: Seq<BadDataView>,
)
    requires
        recording.recording_mbid is Some,
    ensures
        resolve_spec(recording, skip_rules, remap_rules) == resolve_spec(
            recording,
            skip_rules,
            other_remap_rules,
        ),
        !any_accepts(skip_rules, recording) ==> resolve_spec(recording, skip_rules, remap_rules)
            == ResolvedIdentityView::Id(recording.recording_mbid->0),
{
}

/// Of two replacement rules that both accept a recording, the earlier one
/// decides: when no rule before it accepts the recording, the identity is
/// the replacement of the earlier rule, whatever the later rule holds.
pub proof fn lemma_first_remap_wins(
    recording: RecordingView,
    skip_rules: Seq<BadDataMatcherView>,
    remap_rules: Seq<BadDataView>,
    first: int,
    second: int,
)
    requires
        !any_accepts(skip_rules, recording),
        recording.recording_mbid is None,
        0 <= first < second < remap_rules.len(),
        remap_rules[first].match_with.accepts(recording),
        remap_rules[second].match_with.accepts(recording),
        forall|k: int| 0 <= k < first ==> !(#[trigger] remap_rules[k]).match_with.accepts(recording),
    ensures
        resolve_spec(recording, skip_rules, remap_rules) == replacement_identity(
            remap_rules[first].recording_mbid,
        ),
{
    assert(is_first_match(remap_rules, recording, first));
    let chosen: int = choose|c: int| is_first_match(remap_rules, recording, c);
    lemma_first_match_unique(remap_rules, recording, first, chosen);
}

} // verus!
