//! Host-independent UI Automation observation policy: one text channel per element,
//! sensitive and oversized text refused, and unchanged text not reported twice.
use vstd::prelude::*;
use crate::chars::str_eq;
use crate::unicode::{chars_of, is_blank, string_of, trim, trim_chars, utf16_len, utf16_len_exceeds};

verus! {

pub const MAX_ELEMENT_KEY_BYTES: usize = 512;
pub const MAX_TEXT_UNITS: usize = 16 * 1024;

#[derive(Clone, Copy, Debug, PartialEq, Eq, PartialOrd, Ord, Structural)]
pub enum UiaTextChannel {
    Name,
    TextPattern,
    ValuePattern,
}

/// One element as UI Automation reported it.
#[derive(Clone, Debug, PartialEq, Eq)]
pub struct UiaElementSnapshot {
    element_key: String,
    password: bool,
    name: Option<String>,
    text: Option<String>,
    value: Option<String>,
}

pub open spec fn opt_view(o: Option<String>) -> Option<Seq<char>> {
    match o {
        Some(s) => Some(s@),
        None => None,
    }
}

/// The abstract content of a snapshot.
pub struct SnapshotModel {
    pub element_key: Seq<char>,
    pub password: bool,
    pub name: Option<Seq<char>>,
    pub text: Option<Seq<char>>,
    pub value: Option<Seq<char>>,
}

/// A snapshot with its password flag set to `p`.
pub open spec fn protected(m: SnapshotModel, p: bool) -> SnapshotModel {
    SnapshotModel { password: p, ..m }
}

/// A snapshot with its name set to `n`.
pub open spec fn named(m: SnapshotModel, n: Seq<char>) -> SnapshotModel {
    SnapshotModel { name: Some(n), ..m }
}

/// A snapshot with its text set to `t`.
pub open spec fn texted(m: SnapshotModel, t: Seq<char>) -> SnapshotModel {
    SnapshotModel { text: Some(t), ..m }
}

/// A snapshot with its value set to `v`.
pub open spec fn valued(m: SnapshotModel, v: Seq<char>) -> SnapshotModel {
    SnapshotModel { value: Some(v), ..m }
}

/// The snapshot builders: a later name replaces an earlier one, and setting the name commutes
/// with setting the text, the value or the password flag.
pub proof fn law_snapshot_builders(m: SnapshotModel, a: Seq<char>, b: Seq<char>, x: Seq<char>, p: bool)
    ensures
        named(named(m, a), b) == named(m, b),
        texted(named(m, a), x) == named(texted(m, x), a),
        valued(named(m, a), x) == named(valued(m, x), a),
        protected(named(m, a), p) == named(protected(m, p), a),
{
}

impl View for UiaElementSnapshot {
    type V = SnapshotModel;

    closed spec fn view(&self) -> SnapshotModel {
        SnapshotModel {
            element_key: self.element_key@,
            password: self.password,
            name: opt_view(self.name),
            text: opt_view(self.text),
            value: opt_view(self.value),
        }
    }
}

impl UiaElementSnapshot {
    pub fn new(element_key: &str) -> (r: Self)
        ensures
            r@ == (SnapshotModel { element_key: element_key@, password: false, name: None, text: None, value: None }),
    {
        UiaElementSnapshot {
            element_key: element_key.to_owned(),
            password: false,
            name: None,
            text: None,
            value: None,
        }
    }

    pub fn password(self, password: bool) -> (r: Self)
        ensures
            r@ == protected(self@, password),
    {
        UiaElementSnapshot { password, ..self }
    }

    pub fn with_name(self, name: &str) -> (r: Self)
        ensures
            r@ == named(self@, name@),
    {
        UiaElementSnapshot { name: Some(name.to_owned()), ..self }
    }

    pub fn with_text(self, text: &str) -> (r: Self)
        ensures
            r@ == texted(self@, text@),
    {
        UiaElementSnapshot { text: Some(text.to_owned()), ..self }
    }

    pub fn with_value(self, value: &str) -> (r: Self)
        ensures
            r@ == valued(self@, value@),
    {
        UiaElementSnapshot { value: Some(value.to_owned()), ..self }
    }
}

/// Text observed on one channel of one element.
#[derive(Clone, Debug, PartialEq, Eq)]
pub struct UiaTextObservation {
    element_key: String,
    channel: UiaTextChannel,
    text: String,
}

impl UiaTextObservation {
    pub closed spec fn spec_element_key(&self) -> Seq<char> {
        self.element_key@
    }

    pub closed spec fn spec_channel(&self) -> UiaTextChannel {
        self.channel
    }

    pub closed spec fn spec_text(&self) -> Seq<char> {
        self.text@
    }

    pub fn element_key(&self) -> (r: &str)
        ensures
            r@ == self.spec_element_key(),
    {
        self.element_key.as_str()
    }

    pub fn channel(&self) -> (r: UiaTextChannel)
        ensures
            r == self.spec_channel(),
    {
        self.channel
    }

    pub fn text(&self) -> (r: &str)
        ensures
            r@ == self.spec_text(),
    {
        self.text.as_str()
    }
}

#[derive(Clone, Copy, Debug, PartialEq, Eq, Structural)]
pub enum UiaIgnoreReason {
    InvalidElement,
    Sensitive,
    NoText,
    TextTooLong,
    Unchanged,
}

#[derive(Clone, Debug, PartialEq, Eq)]
pub enum UiaObservationOutcome {
    Observed(UiaTextObservation),
    Ignored(UiaIgnoreReason),
}

/// The abstract outcome of one observation.
pub enum OutcomeModel {
    Observed { element_key: Seq<char>, channel: UiaTextChannel, text: Seq<char> },
    Ignored(UiaIgnoreReason),
}

pub open spec fn outcome_view(o: UiaObservationOutcome) -> OutcomeModel {
    match o {
        UiaObservationOutcome::Observed(obs) => OutcomeModel::Observed {
            element_key: obs.spec_element_key(),
            channel: obs.spec_channel(),
            text: obs.spec_text(),
        },
        UiaObservationOutcome::Ignored(r) => OutcomeModel::Ignored(r),
    }
}

/// Line breaks normalized: CRLF and lone CR become LF.
pub open spec fn unify_newlines(s: Seq<char>) -> Seq<char>
    decreases s.len(),
{
    if s.len() == 0 {
        seq![]
    } else if s[0] == '\r' && s.len() >= 2 && s[1] == '\n' {
        seq!['\n'] + unify_newlines(s.subrange(2, s.len() as int))
    } else if s[0] == '\r' {
        seq!['\n'] + unify_newlines(s.drop_first())
    } else {
        seq![s[0]] + unify_newlines(s.drop_first())
    }
}

/// Unifying line breaks leaves no carriage return, and keeps a text without one as it is.
pub proof fn law_unified_text_has_no_carriage_return(s: Seq<char>)
    ensures
        !unify_newlines(s).contains('\r'),
        !s.contains('\r') ==> unify_newlines(s) == s,
    decreases s.len(),
{
    if s.len() > 0 {
        let rest = if s[0] == '\r' && s.len() >= 2 && s[1] == '\n' { s.subrange(2, s.len() as int) } else { s.drop_first() };
        law_unified_text_has_no_carriage_return(rest);
        let head = if s[0] == '\r' { seq!['\n'] } else { seq![s[0]] };
        assert(unify_newlines(s) == head + unify_newlines(rest));
        if (head + unify_newlines(rest)).contains('\r') {
            let k = choose|k: int| 0 <= k < (head + unify_newlines(rest)).len() && (head + unify_newlines(rest))[k] == '\r';
            if k > 0 {
                assert(unify_newlines(rest)[k - 1] == '\r');
            }
        }
        if !s.contains('\r') {
            assert(s[0] != '\r');
            assert(!rest.contains('\r')) by {
                if rest.contains('\r') {
                    let k = choose|k: int| 0 <= k < rest.len() && rest[k] == '\r';
                    assert(s[k + 1] == '\r');
                }
            }
            assert(s =~= seq![s[0]] + s.drop_first());
        }
    }
}

/// Unifying a concatenation unifies each part, unless the first part ends in CR (which may
/// pair with an LF that follows).
proof fn lemma_unify_concat(a: Seq<char>, c: Seq<char>)
    requires
        a.len() == 0 || a.last() != '\r',
    ensures
        unify_newlines(a + c) == unify_newlines(a) + unify_newlines(c),
    decreases a.len(),
{
    if a.len() == 0 {
        assert(a + c =~= c);
        assert(unify_newlines(a) + unify_newlines(c) =~= unify_newlines(c));
    } else if a[0] == '\r' && a.len() >= 2 && a[1] == '\n' {
        let r = a.subrange(2, a.len() as int);
        assert((a + c).subrange(2, (a + c).len() as int) =~= r + c);
        if r.len() > 0 {
            assert(r.last() == a.last());
        }
        lemma_unify_concat(r, c);
        assert(unify_newlines(a + c) =~= seq!['\n'] + unify_newlines(r + c));
        assert(unify_newlines(a) =~= seq!['\n'] + unify_newlines(r));
    } else {
        let r = a.drop_first();
        assert((a + c).drop_first() =~= r + c);
        assert(a.len() >= 2 || a[0] != '\r');
        if r.len() > 0 {
            assert(r.last() == a.last());
        }
        if a[0] == '\r' {
            assert((a + c)[1] == a[1]);
        }
        lemma_unify_concat(r, c);
        let h = if a[0] == '\r' { seq!['\n'] } else { seq![a[0]] };
        assert(unify_newlines(a + c) =~= h + unify_newlines(r + c));
        assert(unify_newlines(a) =~= h + unify_newlines(r));
    }
}

/// A CRLF pair and a lone CR each become one LF: replacing either by LF in a text changes
/// nothing in the unified text (the CR not preceded by another CR, a lone CR not followed
/// by LF).
pub proof fn law_line_breaks_become_one_lf(a: Seq<char>, b: Seq<char>)
    requires
        a.len() == 0 || a.last() != '\r',
    ensures
        unify_newlines(a + seq!['\r', '\n'] + b) == unify_newlines(a + seq!['\n'] + b),
        b.len() == 0 || b[0] != '\n' ==> unify_newlines(a + seq!['\r'] + b) == unify_newlines(a + seq!['\n'] + b),
{
    lemma_unify_concat(a, seq!['\r', '\n'] + b);
    lemma_unify_concat(a, seq!['\n'] + b);
    lemma_unify_concat(a, seq!['\r'] + b);
    assert(a + seq!['\r', '\n'] + b =~= a + (seq!['\r', '\n'] + b));
    assert(a + seq!['\n'] + b =~= a + (seq!['\n'] + b));
    assert(a + seq!['\r'] + b =~= a + (seq!['\r'] + b));
    assert((seq!['\r', '\n'] + b).subrange(2, (seq!['\r', '\n'] + b).len() as int) =~= b);
    assert((seq!['\n'] + b).drop_first() =~= b);
    assert((seq!['\r'] + b).drop_first() =~= b);
    if b.len() > 0 {
        assert((seq!['\r'] + b)[1] == b[0]);
    }
}

/// An observed text holds no carriage return: every line break is reported as LF.
pub proof fn law_observed_text_has_no_carriage_return(last: LastText, s: SnapshotModel)
    ensures
        observe_outcome(last, s) matches OutcomeModel::Observed { text, .. } ==> !text.contains('\r'),
{
    law_unified_text_has_no_carriage_return(s.text->0);
    law_unified_text_has_no_carriage_return(s.value->0);
    law_unified_text_has_no_carriage_return(s.name->0);
    crate::unicode::lemma_trim_avoids(unify_newlines(s.text->0), '\r');
    crate::unicode::lemma_trim_avoids(unify_newlines(s.value->0), '\r');
    crate::unicode::lemma_trim_avoids(unify_newlines(s.name->0), '\r');
}

/// The channel text after newline normalization and trimming, if anything is left.
pub open spec fn normalized(t: Option<Seq<char>>) -> Option<Seq<char>> {
    match t {
        None => None,
        Some(s) => {
            let n = trim(unify_newlines(s));
            if n.len() > 0 { Some(n) } else { None }
        },
    }
}

/// The first channel with text, in the order TextPattern, ValuePattern, Name.
pub open spec fn selected_channel(s: SnapshotModel) -> Option<(UiaTextChannel, Seq<char>)> {
    if normalized(s.text) is Some {
        Some((UiaTextChannel::TextPattern, normalized(s.text)->0))
    } else if normalized(s.value) is Some {
        Some((UiaTextChannel::ValuePattern, normalized(s.value)->0))
    } else if normalized(s.name) is Some {
        Some((UiaTextChannel::Name, normalized(s.name)->0))
    } else {
        None
    }
}

pub type LastText = Map<(Seq<char>, UiaTextChannel), Seq<char>>;

pub open spec fn key_invalid(key: Seq<char>) -> bool {
    trim(key).len() == 0 || vstd::utf8::encode_utf8(key).len() > MAX_ELEMENT_KEY_BYTES
}

/// The outcome of observing `s` with the last reported texts `last`.
pub open spec fn observe_outcome(last: LastText, s: SnapshotModel) -> OutcomeModel {
    if key_invalid(s.element_key) {
        OutcomeModel::Ignored(UiaIgnoreReason::InvalidElement)
    } else if s.password {
        OutcomeModel::Ignored(UiaIgnoreReason::Sensitive)
    } else {
        match selected_channel(s) {
            None => OutcomeModel::Ignored(UiaIgnoreReason::NoText),
            Some((channel, text)) => if utf16_len(text) > MAX_TEXT_UNITS {
                OutcomeModel::Ignored(UiaIgnoreReason::TextTooLong)
            } else if last.contains_key((s.element_key, channel)) && last[(s.element_key, channel)] == text {
                OutcomeModel::Ignored(UiaIgnoreReason::Unchanged)
            } else {
                OutcomeModel::Observed { element_key: s.element_key, channel, text }
            },
        }
    }
}

/// The last reported texts after observing `s`.
pub open spec fn observe_state(last: LastText, s: SnapshotModel) -> LastText {
    match observe_outcome(last, s) {
        OutcomeModel::Observed { element_key, channel, text } => last.insert((element_key, channel), text),
        OutcomeModel::Ignored(_) => last,
    }
}

/// The last reported texts with every channel of `key` forgotten.
pub open spec fn invalidate_state(last: LastText, key: Seq<char>) -> LastText {
    Map::new(|k: (Seq<char>, UiaTextChannel)| last.contains_key(k) && k.0 != key, |k: (Seq<char>, UiaTextChannel)| last[k])
}

/// Reporting an element's text makes the same text on that channel `Unchanged`.
pub proof fn law_no_duplicate_reports(last: LastText, s: SnapshotModel)
    requires
        observe_outcome(last, s) is Observed,
    ensures
        observe_outcome(observe_state(last, s), s) == OutcomeModel::Ignored(UiaIgnoreReason::Unchanged),
{
}

/// A change A -> B -> A is reported three times.
pub proof fn law_changes_are_reported(last: LastText, a: SnapshotModel, b: SnapshotModel)
    requires
        observe_outcome(last, a) is Observed,
        b.element_key == a.element_key,
        b.password == a.password,
        observe_outcome(observe_state(last, a), b) is Observed,
        selected_channel(b) matches Some((ch, _)) && selected_channel(a) matches Some((ca, _)) && ch == ca,
    ensures
        observe_outcome(observe_state(observe_state(last, a), b), a) is Observed,
{
    let (ch, tb) = selected_channel(b)->0;
    let (_, ta) = selected_channel(a)->0;
    assert(tb != ta);
}

/// After invalidation, a recreated element with the same text is reported again.
pub proof fn law_invalidation_allows_reemission(last: LastText, s: SnapshotModel)
    requires
        observe_outcome(last, s) is Observed,
    ensures
        observe_outcome(invalidate_state(observe_state(last, s), s.element_key), s) is Observed,
{
}

pub open spec fn entry_key(e: (String, UiaTextChannel, String)) -> (Seq<char>, UiaTextChannel) {
    (e.0@, e.1)
}

pub open spec fn entry_text(e: (String, UiaTextChannel, String)) -> Seq<char> {
    e.2@
}

pub open spec fn entries_map(v: Seq<(String, UiaTextChannel, String)>) -> LastText
    decreases v.len(),
{
    if v.len() == 0 {
        Map::empty()
    } else {
        entries_map(v.drop_last()).insert(entry_key(v.last()), entry_text(v.last()))
    }
}

pub open spec fn distinct_keys(v: Seq<(String, UiaTextChannel, String)>) -> bool {
    forall|i: int, j: int| 0 <= i < j < v.len() ==> entry_key(v[i]) != entry_key(v[j])
}

proof fn lemma_entries_map_lookup(v: Seq<(String, UiaTextChannel, String)>)
    requires
        distinct_keys(v),
    ensures
        forall|i: int| 0 <= i < v.len() ==> #[trigger] entries_map(v).contains_key(entry_key(v[i]))
            && entries_map(v)[entry_key(v[i])] == entry_text(v[i]),
        forall|k: (Seq<char>, UiaTextChannel)| entries_map(v).contains_key(k) ==> exists|i: int|
            0 <= i < v.len() && #[trigger] entry_key(v[i]) == k,
    decreases v.len(),
{
    if v.len() > 0 {
        let w = v.drop_last();
        assert(distinct_keys(w));
        lemma_entries_map_lookup(w);
        assert forall|k: (Seq<char>, UiaTextChannel)| entries_map(v).contains_key(k) implies exists|i: int|
            0 <= i < v.len() && #[trigger] entry_key(v[i]) == k by {
            if k != entry_key(v.last()) {
                assert(entries_map(w).contains_key(k));
                let i = choose|i: int| 0 <= i < w.len() && #[trigger] entry_key(w[i]) == k;
                assert(w[i] == v[i]);
                assert(entry_key(v[i]) == k);
            } else {
                assert(entry_key(v[v.len() - 1]) == k);
            }
        }
        assert forall|i: int| 0 <= i < v.len() implies #[trigger] entries_map(v).contains_key(entry_key(v[i]))
            && entries_map(v)[entry_key(v[i])] == entry_text(v[i]) by {
            if i < v.len() - 1 {
                assert(w[i] == v[i]);
                assert(entries_map(w).contains_key(entry_key(w[i])));
                assert(entry_key(v[i]) != entry_key(v[v.len() - 1]));
            } else {
                assert(v[i] == v.last());
            }
        }
    }
}

proof fn lemma_entries_map_update(v: Seq<(String, UiaTextChannel, String)>, i: int, e: (String, UiaTextChannel, String))
    requires
        distinct_keys(v),
        0 <= i < v.len(),
        entry_key(e) == entry_key(v[i]),
    ensures
        distinct_keys(v.update(i, e)),
        entries_map(v.update(i, e)) == entries_map(v).insert(entry_key(e), entry_text(e)),
{
    let u = v.update(i, e);
    assert(distinct_keys(u)) by {
        assert forall|a: int, b: int| 0 <= a < b < u.len() implies entry_key(u[a]) != entry_key(u[b]) by {
            if a == i {
                assert(entry_key(v[i]) != entry_key(v[b]));
            } else if b == i {
                assert(entry_key(v[a]) != entry_key(v[i]));
            }
        }
    }
    lemma_entries_map_lookup(v);
    lemma_entries_map_lookup(u);
    let m1 = entries_map(u);
    let m2 = entries_map(v).insert(entry_key(e), entry_text(e));
    assert forall|k: (Seq<char>, UiaTextChannel)| m1.contains_key(k) <==> m2.contains_key(k) by {
        if m1.contains_key(k) {
            let j = choose|j: int| 0 <= j < u.len() && #[trigger] entry_key(u[j]) == k;
            if j != i {
                assert(entry_key(v[j]) == k);
            }
        }
        if m2.contains_key(k) && k != entry_key(e) {
            let j = choose|j: int| 0 <= j < v.len() && #[trigger] entry_key(v[j]) == k;
            assert(entry_key(u[j]) == k);
        }
        if k == entry_key(e) {
            assert(entry_key(u[i]) == k);
        }
    }
    assert forall|k: (Seq<char>, UiaTextChannel)| m1.contains_key(k) implies m1[k] == m2[k] by {
        let j = choose|j: int| 0 <= j < u.len() && #[trigger] entry_key(u[j]) == k;
        if j != i {
            assert(entry_key(v[j]) == k);
            assert(u[j] == v[j]);
        }
    }
    assert(m1 =~= m2);
}

proof fn lemma_entries_map_push(v: Seq<(String, UiaTextChannel, String)>, e: (String, UiaTextChannel, String))
    requires
        distinct_keys(v),
        !entries_map(v).contains_key(entry_key(e)),
    ensures
        distinct_keys(v.push(e)),
        entries_map(v.push(e)) == entries_map(v).insert(entry_key(e), entry_text(e)),
{
    lemma_entries_map_lookup(v);
    let u = v.push(e);
    assert(u.drop_last() =~= v);
    assert forall|a: int, b: int| 0 <= a < b < u.len() implies entry_key(u[a]) != entry_key(u[b]) by {
        if b == v.len() {
            assert(entries_map(v).contains_key(entry_key(v[a])));
        } else {
            assert(u[a] == v[a] && u[b] == v[b]);
        }
    }
}

/// Remembers the last text reported per element and channel.
pub struct UiaObserver {
    last_text: Vec<(String, UiaTextChannel, String)>,
}

impl View for UiaObserver {
    type V = LastText;

    closed spec fn view(&self) -> LastText {
        entries_map(self.last_text@)
    }
}

impl Default for UiaObserver {
    fn default() -> (r: Self)
        ensures
            r@ == LastText::empty(),
    {
        let r = UiaObserver { last_text: Vec::new() };
        assert(r@ =~= LastText::empty());
        r
    }
}

fn unify_newlines_exec(s: &[char]) -> (r: Vec<char>)
    ensures
        r@ == unify_newlines(s@),
{
    let mut out: Vec<char> = Vec::new();
    let mut i: usize = 0;
    assert(s@.skip(0) =~= s@);
    while i < s.len()
        invariant
            i <= s.len(),
            unify_newlines(s@) == out@ + unify_newlines(s@.skip(i as int)),
        decreases s.len() - i,
    {
        let ghost t = s@.skip(i as int);
        assert(t[0] == s@[i as int]);
        if s[i] == '\r' && i + 1 < s.len() && s[i + 1] == '\n' {
            assert(t[1] == s@[i + 1]);
            assert(t.subrange(2, t.len() as int) =~= s@.skip(i + 2));
            out.push('\n');
            i += 2;
        } else if s[i] == '\r' {
            assert(t.drop_first() =~= s@.skip(i + 1));
            out.push('\n');
            i += 1;
        } else {
            assert(t.drop_first() =~= s@.skip(i + 1));
            out.push(s[i]);
            i += 1;
        }
    }
    assert(s@.skip(i as int) =~= Seq::<char>::empty());
    assert(out@ + Seq::<char>::empty() =~= out@);
    out
}

fn normalize(text: &Option<String>) -> (r: Option<Vec<char>>)
    ensures
        match r {
            Some(v) => normalized(opt_view(*text)) == Some(v@),
            None => normalized(opt_view(*text)) is None,
        },
{
    match text {
        None => None,
        Some(s) => {
            let chars = chars_of(s.as_str());
            let unified = unify_newlines_exec(&chars);
            let t = trim_chars(&unified);
            if t.len() > 0 {
                Some(t)
            } else {
                None
            }
        },
    }
}

impl UiaObserver {
    #[verifier::type_invariant]
    spec fn well_formed(&self) -> bool {
        distinct_keys(self.last_text@)
    }

    /// Reports the element's first non-empty channel unless it is invalid, sensitive,
    /// too long, or the same text was already reported for that element and channel.
    #[verifier::loop_isolation(false)]
    pub fn observe(&mut self, snapshot: UiaElementSnapshot) -> (r: UiaObservationOutcome)
        ensures
            outcome_view(r) == observe_outcome(old(self)@, snapshot@),
            final(self)@ == observe_state(old(self)@, snapshot@),
    {
        proof {
            use_type_invariant(&*self);
        }
        let key_chars = chars_of(snapshot.element_key.as_str());
        proof {
            crate::unicode::lemma_trim_empty(key_chars@);
        }
        if is_blank(&key_chars) || snapshot.element_key.as_str().as_bytes().len() > MAX_ELEMENT_KEY_BYTES {
            return UiaObservationOutcome::Ignored(UiaIgnoreReason::InvalidElement);
        }
        if snapshot.password {
            return UiaObservationOutcome::Ignored(UiaIgnoreReason::Sensitive);
        }
        let (channel, text) = match normalize(&snapshot.text) {
            Some(t) => (UiaTextChannel::TextPattern, t),
            None => match normalize(&snapshot.value) {
                Some(t) => (UiaTextChannel::ValuePattern, t),
                None => match normalize(&snapshot.name) {
                    Some(t) => (UiaTextChannel::Name, t),
                    None => {
                        return UiaObservationOutcome::Ignored(UiaIgnoreReason::NoText);
                    },
                },
            },
        };
        if utf16_len_exceeds(&text, MAX_TEXT_UNITS) {
            return UiaObservationOutcome::Ignored(UiaIgnoreReason::TextTooLong);
        }
        let text_string = string_of(&text);
        proof {
            lemma_entries_map_lookup(self.last_text@);
        }
        let mut i: usize = 0;
        while i < self.last_text.len()
            invariant
                i <= self.last_text.len(),
                self.last_text@ == old(self).last_text@,
                distinct_keys(self.last_text@),
                forall|k: int| 0 <= k < i ==> entry_key(#[trigger] self.last_text@[k]) != (snapshot@.element_key, channel),
            decreases self.last_text.len() - i,
        {
            let same_key = self.last_text[i].1 == channel
                && str_eq(self.last_text[i].0.as_str(), snapshot.element_key.as_str());
            if same_key {
                assert(entry_key(self.last_text@[i as int]) == (snapshot@.element_key, channel));
                if str_eq(self.last_text[i].2.as_str(), text_string.as_str()) {
                    proof {
                        lemma_entries_map_lookup(self.last_text@);
                        assert(entries_map(self.last_text@).contains_key(entry_key(self.last_text@[i as int])));
                    }
                    return UiaObservationOutcome::Ignored(UiaIgnoreReason::Unchanged);
                }
                let entry = (snapshot.element_key.clone(), channel, string_of(&text));
                assert(entry.0@ == snapshot@.element_key);
                proof {
                    lemma_entries_map_update(self.last_text@, i as int, entry);
                }
                let mut entries: Vec<(String, UiaTextChannel, String)> = Vec::new();
                std::mem::swap(&mut entries, &mut self.last_text);
                entries.set(i, entry);
                self.last_text = entries;
                return UiaObservationOutcome::Observed(UiaTextObservation {
                    element_key: snapshot.element_key,
                    channel,
                    text: text_string,
                });
            }
            i += 1;
        }
        proof {
            lemma_entries_map_lookup(self.last_text@);
            if self@.contains_key((snapshot@.element_key, channel)) {
                let j = choose|j: int| 0 <= j < self.last_text@.len() && #[trigger] entry_key(self.last_text@[j]) == (snapshot@.element_key, channel);
            }
        }
        assert(!self@.contains_key((snapshot@.element_key, channel)));
        let entry = (snapshot.element_key.clone(), channel, string_of(&text));
        assert(entry.0@ == snapshot@.element_key);
        proof {
            lemma_entries_map_push(self.last_text@, entry);
        }
        let mut entries: Vec<(String, UiaTextChannel, String)> = Vec::new();
        std::mem::swap(&mut entries, &mut self.last_text);
        entries.push(entry);
        self.last_text = entries;
        UiaObservationOutcome::Observed(UiaTextObservation {
            element_key: snapshot.element_key,
            channel,
            text: text_string,
        })
    }

    /// Forgets every channel of the element, so a recreated element is reported again.
    pub fn invalidate(&mut self, element_key: &str)
        ensures
            final(self)@ == invalidate_state(old(self)@, element_key@),
    {
        proof {
            use_type_invariant(&*self);
        }
        let ghost old_v = self.last_text@;
        proof {
            lemma_entries_map_lookup(old_v);
        }
        let mut kept: Vec<(String, UiaTextChannel, String)> = Vec::new();
        let mut i: usize = 0;
        while i < self.last_text.len()
            invariant
                i <= self.last_text.len(),
                self.last_text@ == old_v,
                distinct_keys(old_v),
                distinct_keys(kept@),
                forall|k: (Seq<char>, UiaTextChannel)| entries_map(kept@).contains_key(k) <==> (k.0 != element_key@
                    && exists|j: int| 0 <= j < i && #[trigger] entry_key(old_v[j]) == k),
                forall|j: int| 0 <= j < i && entry_key(old_v[j]).0 != element_key@ ==> #[trigger] entries_map(kept@)[entry_key(old_v[j])]
                    == entry_text(old_v[j]),
            decreases self.last_text.len() - i,
        {
            let e = &self.last_text[i];
            if !str_eq(e.0.as_str(), element_key) {
                let entry = (e.0.clone(), e.1, e.2.clone());
                assert(entry_key(entry) == entry_key(old_v[i as int]));
                assert(entry_text(entry) == entry_text(old_v[i as int]));
                proof {
                    if entries_map(kept@).contains_key(entry_key(entry)) {
                        let j = choose|j: int| 0 <= j < i && #[trigger] entry_key(old_v[j]) == entry_key(entry);
                        assert(entry_key(old_v[j]) != entry_key(old_v[i as int]));
                    }
                    lemma_entries_map_push(kept@, entry);
                }
                let ghost before = kept@;
                kept.push(entry);
                proof {
                    assert forall|k: (Seq<char>, UiaTextChannel)| entries_map(kept@).contains_key(k) <==> (k.0 != element_key@
                        && exists|j: int| 0 <= j < i + 1 && #[trigger] entry_key(old_v[j]) == k) by {
                        if k == entry_key(old_v[i as int]) {
                            assert(entry_key(old_v[i as int]) == k);
                        } else if k.0 != element_key@ && exists|j: int| 0 <= j < i + 1 && #[trigger] entry_key(old_v[j]) == k {
                            let j = choose|j: int| 0 <= j < i + 1 && #[trigger] entry_key(old_v[j]) == k;
                            assert(j < i);
                        }
                    }
                    assert forall|j: int| 0 <= j < i + 1 && entry_key(old_v[j]).0 != element_key@ implies #[trigger] entries_map(kept@)[entry_key(old_v[j])]
                        == entry_text(old_v[j]) by {
                        if j < i {
                            assert(entry_key(old_v[j]) != entry_key(old_v[i as int]));
                            assert(entries_map(before)[entry_key(old_v[j])] == entry_text(old_v[j]));
                        }
                    }
                }
            } else {
                assert(entry_key(old_v[i as int]).0 == element_key@);
                proof {
                    assert forall|j: int| 0 <= j < i + 1 && entry_key(old_v[j]).0 != element_key@ implies #[trigger] entries_map(kept@)[entry_key(old_v[j])]
                        == entry_text(old_v[j]) by {
                        assert(j < i);
                    }
                    assert forall|k: (Seq<char>, UiaTextChannel)| entries_map(kept@).contains_key(k) <==> (k.0 != element_key@
                        && exists|j: int| 0 <= j < i + 1 && #[trigger] entry_key(old_v[j]) == k) by {
                        if k.0 != element_key@ && exists|j: int| 0 <= j < i + 1 && #[trigger] entry_key(old_v[j]) == k {
                            let j = choose|j: int| 0 <= j < i + 1 && #[trigger] entry_key(old_v[j]) == k;
                            assert(j < i);
                        }
                    }
                }
            }
            i += 1;
        }
        proof {
            let m1 = entries_map(kept@);
            let m2 = invalidate_state(entries_map(old_v), element_key@);
            assert forall|k: (Seq<char>, UiaTextChannel)| m1.contains_key(k) <==> m2.contains_key(k) by {
                if m2.contains_key(k) {
                    let j = choose|j: int| 0 <= j < old_v.len() && #[trigger] entry_key(old_v[j]) == k;
                }
            }
            assert forall|k: (Seq<char>, UiaTextChannel)| m1.contains_key(k) implies m1[k] == m2[k] by {
                let j = choose|j: int| 0 <= j < old_v.len() && #[trigger] entry_key(old_v[j]) == k;
                assert(m1[entry_key(old_v[j])] == entry_text(old_v[j]));
            }
            assert(m1 =~= m2);
        }
        self.last_text = kept;
    }
}

} // verus!
