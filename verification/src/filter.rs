//! Rule-based filtering and scoring of feed items.
//!
//! A prioritized global rule set, together with per-show overrides,
//! decides which competing releases survive a poll cycle and in which
//! order they are tried. The whole evaluation is specified exactly:
//! which items survive, what score each survivor carries, and which
//! annotations are recorded.

use vstd::prelude::*;
use crate::feed::RssItem;
use crate::text::{
    chars_of, contains_sub, dec_chars, has_sub, lower, push_all, str_eq, string_of, to_lower,
    u32_chars,
};

verus! {

/// What part of an item a rule's pattern is held against.
#[derive(Debug, Clone, Copy, PartialEq, Eq, Structural)]
pub enum FilterType {
    Resolution,
    Group,
    TitleExclude,
    TitleInclude,
}

/// What a matching rule does to an item.
#[derive(Debug, Clone, Copy, PartialEq, Eq, Structural)]
pub enum FilterAction {
    Prefer,
    Require,
    Exclude,
}

/// The stable storage name of each filter type.
pub open spec fn spec_filter_type_str(t: FilterType) -> Seq<char> {
    match t {
        FilterType::Resolution => "resolution"@,
        FilterType::Group => "group"@,
        FilterType::TitleExclude => "title_exclude"@,
        FilterType::TitleInclude => "title_include"@,
    }
}

/// The stable storage name of each action.
pub open spec fn spec_filter_action_str(a: FilterAction) -> Seq<char> {
    match a {
        FilterAction::Prefer => "prefer"@,
        FilterAction::Require => "require"@,
        FilterAction::Exclude => "exclude"@,
    }
}

impl FilterType {
    /// The storage name of this filter type.
    pub fn as_str(&self) -> (r: &'static str)
        ensures
            r@ == spec_filter_type_str(*self),
    {
        match self {
            FilterType::Resolution => "resolution",
            FilterType::Group => "group",
            FilterType::TitleExclude => "title_exclude",
            FilterType::TitleInclude => "title_include",
        }
    }

    /// Parses a storage name back; `None` for anything unknown.
    pub fn from_str(s: &str) -> (r: Option<Self>)
        ensures
            match r {
                Some(t) => s@ == spec_filter_type_str(t),
                None => forall|t: FilterType| s@ != spec_filter_type_str(t),
            },
    {
        if str_eq(s, "resolution") {
            Some(FilterType::Resolution)
        } else if str_eq(s, "group") {
            Some(FilterType::Group)
        } else if str_eq(s, "title_exclude") {
            Some(FilterType::TitleExclude)
        } else if str_eq(s, "title_include") {
            Some(FilterType::TitleInclude)
        } else {
            None
        }
    }
}

impl FilterAction {
    /// The storage name of this action.
    pub fn as_str(&self) -> (r: &'static str)
        ensures
            r@ == spec_filter_action_str(*self),
    {
        match self {
            FilterAction::Prefer => "prefer",
            FilterAction::Require => "require",
            FilterAction::Exclude => "exclude",
        }
    }

    /// Parses a storage name back; `None` for anything unknown.
    pub fn from_str(s: &str) -> (r: Option<Self>)
        ensures
            match r {
                Some(a) => s@ == spec_filter_action_str(a),
                None => forall|a: FilterAction| s@ != spec_filter_action_str(a),
            },
    {
        if str_eq(s, "prefer") {
            Some(FilterAction::Prefer)
        } else if str_eq(s, "require") {
            Some(FilterAction::Require)
        } else if str_eq(s, "exclude") {
            Some(FilterAction::Exclude)
        } else {
            None
        }
    }
}

/// One rule of the global, prioritized rule set.
///
/// Rules are evaluated priority-descending, ties broken by insertion
/// order.
#[derive(Debug, Clone)]
pub struct FilterRule {
    pub id: u32,
    pub name: String,
    pub filter_type: FilterType,
    pub pattern: String,
    pub action: FilterAction,
    pub priority: i32,
    pub is_global: bool,
    pub enabled: bool,
    pub created_at: Option<String>,
}

/// The two shapes a per-show override can take.
pub enum OverrideRule {
    /// References a global rule; together with `enabled == false` on the
    /// override it switches that rule off for this one show.
    DisableGlobal { filter_rule_id: u32 },
    /// A show-private rule, never ranked against global priorities.
    Custom { filter_type: FilterType, pattern: String, action: FilterAction },
}

/// A per-show filter override, of exactly one of the two shapes.
pub struct ShowFilterOverride {
    pub id: u32,
    pub show_id: u32,
    pub enabled: bool,
    pub rule: OverrideRule,
}

/// Input for creating a new global rule.
#[derive(Debug, Clone)]
pub struct CreateFilterRule {
    pub name: String,
    pub filter_type: String,
    pub pattern: String,
    pub action: String,
    pub priority: i32,
}

/// Input for updating an existing rule; absent fields stay unchanged.
#[derive(Debug, Clone)]
pub struct UpdateFilterRule {
    pub name: Option<String>,
    pub filter_type: Option<String>,
    pub pattern: Option<String>,
    pub action: Option<String>,
    pub priority: Option<i32>,
    pub enabled: Option<bool>,
}

/// The evaluated output for one surviving item.
#[derive(Debug, Clone)]
pub struct FilterResult {
    pub item: RssItem,
    pub score: i32,
    pub matched_rules: Vec<String>,
}

/// Whether a pattern textually matches a title: case-insensitive
/// substring match, bracket-delimited for group patterns.
pub open spec fn spec_pattern_matches(ft: FilterType, pattern: Seq<char>, title: Seq<char>) -> bool {
    match ft {
        FilterType::Group => has_sub(lower(title), seq!['['] + lower(pattern) + seq![']']),
        _ => has_sub(lower(title), lower(pattern)),
    }
}

/// An override of the disable shape aimed at the global rule `id`.
pub open spec fn is_disable_of(o: ShowFilterOverride, id: u32) -> bool {
    !o.enabled && (o.rule matches OverrideRule::DisableGlobal { filter_rule_id }
        && filter_rule_id == id)
}

/// A global rule takes part in evaluation when it is enabled and no
/// override disables it for this show.
pub open spec fn rule_applies(r: FilterRule, ovs: Seq<ShowFilterOverride>) -> bool {
    r.enabled && !(exists|k: int| 0 <= k < ovs.len() && is_disable_of(#[trigger] ovs[k], r.id))
}

/// A participating rule drops the item: a matching Exclude, or a
/// non-matching Require.
pub open spec fn rule_blocks(r: FilterRule, title: Seq<char>) -> bool {
    match r.action {
        FilterAction::Exclude => spec_pattern_matches(r.filter_type, r.pattern@, title),
        FilterAction::Require => !spec_pattern_matches(r.filter_type, r.pattern@, title),
        FilterAction::Prefer => false,
    }
}

/// An enabled custom override drops the item the same way.
pub open spec fn override_blocks(o: ShowFilterOverride, title: Seq<char>) -> bool {
    o.enabled && (o.rule matches OverrideRule::Custom { filter_type, pattern, action }
        && match action {
            FilterAction::Exclude => spec_pattern_matches(filter_type, pattern@, title),
            FilterAction::Require => !spec_pattern_matches(filter_type, pattern@, title),
            FilterAction::Prefer => false,
        })
}

/// An item survives when no participating global rule and no enabled
/// custom override drops it.
pub open spec fn item_survives(
    rules: Seq<FilterRule>,
    ovs: Seq<ShowFilterOverride>,
    title: Seq<char>,
) -> bool {
    (forall|i: int|
        0 <= i < rules.len() && rule_applies(#[trigger] rules[i], ovs) ==> !rule_blocks(
            rules[i],
            title,
        )) && (forall|k: int| 0 <= k < ovs.len() ==> !override_blocks(#[trigger] ovs[k], title))
}

/// The points a matching Prefer rule contributes.
pub open spec fn rule_points(r: FilterRule) -> int {
    if r.priority >= 1 {
        r.priority as int
    } else {
        1
    }
}

/// The contribution of one global rule to an item's score.
pub open spec fn rule_score(r: FilterRule, ovs: Seq<ShowFilterOverride>, title: Seq<char>) -> int {
    if rule_applies(r, ovs) && r.action is Prefer && spec_pattern_matches(
        r.filter_type,
        r.pattern@,
        title,
    ) {
        rule_points(r)
    } else {
        0
    }
}

/// Total score contributed by the global rules.
pub open spec fn globals_score(
    rules: Seq<FilterRule>,
    ovs: Seq<ShowFilterOverride>,
    title: Seq<char>,
) -> int
    decreases rules.len(),
{
    if rules.len() == 0 {
        0
    } else {
        globals_score(rules.drop_last(), ovs, title) + rule_score(rules.last(), ovs, title)
    }
}

/// The fixed low score of a matching show-private Prefer override,
/// deliberately below any realistic global priority.
pub open spec fn override_score(o: ShowFilterOverride, title: Seq<char>) -> int {
    if o.enabled && (o.rule matches OverrideRule::Custom { filter_type, pattern, action }
        && action is Prefer && spec_pattern_matches(filter_type, pattern@, title)) {
        5
    } else {
        0
    }
}

/// Total score contributed by the custom overrides.
pub open spec fn overrides_score(ovs: Seq<ShowFilterOverride>, title: Seq<char>) -> int
    decreases ovs.len(),
{
    if ovs.len() == 0 {
        0
    } else {
        overrides_score(ovs.drop_last(), title) + override_score(ovs.last(), title)
    }
}

/// The accumulated score of a surviving item.
pub open spec fn item_score(
    rules: Seq<FilterRule>,
    ovs: Seq<ShowFilterOverride>,
    title: Seq<char>,
) -> int {
    globals_score(rules, ovs, title) + overrides_score(ovs, title)
}

/// The annotations one global rule records on a surviving item.
pub open spec fn rule_annots(
    r: FilterRule,
    ovs: Seq<ShowFilterOverride>,
    title: Seq<char>,
) -> Seq<Seq<char>> {
    if rule_applies(r, ovs) && spec_pattern_matches(r.filter_type, r.pattern@, title) {
        if r.action is Prefer {
            seq![r.name@ + " (+"@ + dec_chars(rule_points(r)) + ")"@]
        } else if r.action is Require {
            seq![r.name@ + " (required)"@]
        } else {
            seq![]
        }
    } else {
        seq![]
    }
}

/// Annotations of the global rules, in evaluation order.
pub open spec fn globals_annots(
    rules: Seq<FilterRule>,
    ovs: Seq<ShowFilterOverride>,
    title: Seq<char>,
) -> Seq<Seq<char>>
    decreases rules.len(),
{
    if rules.len() == 0 {
        seq![]
    } else {
        globals_annots(rules.drop_last(), ovs, title) + rule_annots(rules.last(), ovs, title)
    }
}

/// The annotation a matching custom Prefer override records.
pub open spec fn override_annots(o: ShowFilterOverride, title: Seq<char>) -> Seq<Seq<char>> {
    if o.enabled && (o.rule matches OverrideRule::Custom { filter_type, pattern, action }
        && action is Prefer && spec_pattern_matches(filter_type, pattern@, title)) {
        seq!["show:"@ + (o.rule->Custom_pattern)@ + " (+5)"@]
    } else {
        seq![]
    }
}

/// Annotations of the custom overrides, in insertion order.
pub open spec fn overrides_annots(ovs: Seq<ShowFilterOverride>, title: Seq<char>) -> Seq<Seq<char>>
    decreases ovs.len(),
{
    if ovs.len() == 0 {
        seq![]
    } else {
        overrides_annots(ovs.drop_last(), title) + override_annots(ovs.last(), title)
    }
}

/// All annotations of a surviving item: globals first, then overrides.
pub open spec fn spec_annotations(
    rules: Seq<FilterRule>,
    ovs: Seq<ShowFilterOverride>,
    title: Seq<char>,
) -> Seq<Seq<char>> {
    globals_annots(rules, ovs, title) + overrides_annots(ovs, title)
}

/// A filter result is exactly the evaluation of its own item.
pub open spec fn result_matches(
    rules: Seq<FilterRule>,
    ovs: Seq<ShowFilterOverride>,
    fr: FilterResult,
) -> bool {
    &&& item_survives(rules, ovs, fr.item.title@)
    &&& fr.score as int == item_score(rules, ovs, fr.item.title@)
    &&& fr.matched_rules.deep_view() == spec_annotations(rules, ovs, fr.item.title@)
}

/// The items of a result list.
pub open spec fn items_of(s: Seq<FilterResult>) -> Seq<RssItem> {
    s.map_values(|fr: FilterResult| fr.item)
}

/// The input items that survive evaluation, in input order.
pub open spec fn surviving_items(
    rules: Seq<FilterRule>,
    ovs: Seq<ShowFilterOverride>,
    items: Seq<RssItem>,
) -> Seq<RssItem> {
    items.filter(|it: RssItem| item_survives(rules, ovs, it.title@))
}

/// Result ordering: score descending, ties by seeders descending.
pub open spec fn result_ge(a: FilterResult, b: FilterResult) -> bool {
    a.score > b.score || (a.score == b.score && a.item.seeders >= b.item.seeders)
}

/// The same ordering on raw items, by their evaluated scores.
pub open spec fn row_ge(
    rules: Seq<FilterRule>,
    ovs: Seq<ShowFilterOverride>,
    a: RssItem,
    b: RssItem,
) -> bool {
    item_score(rules, ovs, a.title@) > item_score(rules, ovs, b.title@) || (item_score(
        rules,
        ovs,
        a.title@,
    ) == item_score(rules, ovs, b.title@) && a.seeders >= b.seeders)
}

/// Stable insertion of one surviving item into an ordered row list: the
/// item goes behind every row ranking at least as high, so ties keep
/// input order.
pub open spec fn insert_row(
    rules: Seq<FilterRule>,
    ovs: Seq<ShowFilterOverride>,
    sorted: Seq<RssItem>,
    x: RssItem,
) -> Seq<RssItem>
    decreases sorted.len(),
{
    if sorted.len() == 0 {
        seq![x]
    } else if row_ge(rules, ovs, sorted[0], x) {
        seq![sorted[0]] + insert_row(rules, ovs, sorted.drop_first(), x)
    } else {
        seq![x] + sorted
    }
}

/// The stable ordering of the surviving items: score descending, ties
/// by seeders descending, then input order.
pub open spec fn sorted_rows(
    rules: Seq<FilterRule>,
    ovs: Seq<ShowFilterOverride>,
    items: Seq<RssItem>,
) -> Seq<RssItem>
    decreases items.len(),
{
    if items.len() == 0 {
        Seq::empty()
    } else {
        insert_row(rules, ovs, sorted_rows(rules, ovs, items.drop_last()), items.last())
    }
}

proof fn lemma_insert_row_at(
    rules: Seq<FilterRule>,
    ovs: Seq<ShowFilterOverride>,
    sorted: Seq<RssItem>,
    x: RssItem,
    p: int,
)
    requires
        0 <= p <= sorted.len(),
        forall|j: int| 0 <= j < p ==> row_ge(rules, ovs, #[trigger] sorted[j], x),
        p == sorted.len() || !row_ge(rules, ovs, sorted[p], x),
    ensures
        insert_row(rules, ovs, sorted, x) == sorted.insert(p, x),
    decreases p,
{
    if sorted.len() == 0 {
        assert(insert_row(rules, ovs, sorted, x) =~= sorted.insert(0, x));
    } else if p == 0 {
        assert(insert_row(rules, ovs, sorted, x) =~= sorted.insert(0, x));
    } else {
        let rest = sorted.drop_first();
        assert(forall|j: int| 0 <= j < p - 1 ==> rest[j] == sorted[j + 1]);
        lemma_insert_row_at(rules, ovs, rest, x, p - 1);
        assert(seq![sorted[0]] + rest.insert(p - 1, x) =~= sorted.insert(p, x));
    }
}

/// Descending priority, the evaluation order of the global rules.
pub open spec fn rules_sorted(rules: Seq<FilterRule>) -> bool {
    forall|i: int, j: int| 0 <= i < j < rules.len() ==> rules[i].priority >= rules[j].priority
}

/// Stable insertion of one rule into a priority-descending list: the
/// rule goes behind every rule of equal or higher priority, so ties keep
/// insertion order.
pub open spec fn insert_rule(sorted: Seq<FilterRule>, x: FilterRule) -> Seq<FilterRule>
    decreases sorted.len(),
{
    if sorted.len() == 0 {
        seq![x]
    } else if sorted[0].priority >= x.priority {
        seq![sorted[0]] + insert_rule(sorted.drop_first(), x)
    } else {
        seq![x] + sorted
    }
}

/// The stable priority-descending sort of the global rules.
pub open spec fn sort_rules_spec(rules: Seq<FilterRule>) -> Seq<FilterRule>
    decreases rules.len(),
{
    if rules.len() == 0 {
        Seq::empty()
    } else {
        insert_rule(sort_rules_spec(rules.drop_last()), rules.last())
    }
}

proof fn lemma_insert_rule_at(sorted: Seq<FilterRule>, x: FilterRule, p: int)
    requires
        0 <= p <= sorted.len(),
        forall|j: int| 0 <= j < p ==> sorted[j].priority >= x.priority,
        p == sorted.len() || sorted[p].priority < x.priority,
    ensures
        insert_rule(sorted, x) == sorted.insert(p, x),
    decreases p,
{
    if sorted.len() == 0 {
        assert(insert_rule(sorted, x) =~= sorted.insert(0, x));
    } else if p == 0 {
        assert(insert_rule(sorted, x) =~= sorted.insert(0, x));
    } else {
        let rest = sorted.drop_first();
        assert(forall|j: int| 0 <= j < p - 1 ==> rest[j] == sorted[j + 1]);
        lemma_insert_rule_at(rest, x, p - 1);
        assert(seq![sorted[0]] + rest.insert(p - 1, x) =~= sorted.insert(p, x));
    }
}

pub proof fn lemma_globals_score_nonneg(
    rules: Seq<FilterRule>,
    ovs: Seq<ShowFilterOverride>,
    title: Seq<char>,
)
    ensures
        globals_score(rules, ovs, title) >= 0,
    decreases rules.len(),
{
    if rules.len() > 0 {
        lemma_globals_score_nonneg(rules.drop_last(), ovs, title);
    }
}

pub proof fn lemma_overrides_score_nonneg(ovs: Seq<ShowFilterOverride>, title: Seq<char>)
    ensures
        overrides_score(ovs, title) >= 0,
    decreases ovs.len(),
{
    if ovs.len() > 0 {
        lemma_overrides_score_nonneg(ovs.drop_last(), title);
    }
}

pub proof fn lemma_globals_score_prefix(
    rules: Seq<FilterRule>,
    ovs: Seq<ShowFilterOverride>,
    title: Seq<char>,
    i: int,
)
    requires
        0 <= i <= rules.len(),
    ensures
        globals_score(rules.subrange(0, i), ovs, title) <= globals_score(rules, ovs, title),
    decreases rules.len() - i,
{
    if i == rules.len() {
        assert(rules.subrange(0, i) =~= rules);
    } else {
        lemma_globals_score_prefix(rules, ovs, title, i + 1);
        assert(rules.subrange(0, i + 1).drop_last() =~= rules.subrange(0, i));
        assert(rules.subrange(0, i + 1).last() == rules[i]);
    }
}

pub proof fn lemma_overrides_score_prefix(
    ovs: Seq<ShowFilterOverride>,
    title: Seq<char>,
    i: int,
)
    requires
        0 <= i <= ovs.len(),
    ensures
        overrides_score(ovs.subrange(0, i), title) <= overrides_score(ovs, title),
    decreases ovs.len() - i,
{
    if i == ovs.len() {
        assert(ovs.subrange(0, i) =~= ovs);
    } else {
        lemma_overrides_score_prefix(ovs, title, i + 1);
        assert(ovs.subrange(0, i + 1).drop_last() =~= ovs.subrange(0, i));
        assert(ovs.subrange(0, i + 1).last() == ovs[i]);
    }
}

/// Appending one item to the input extends the surviving list by that
/// item exactly when it survives.
pub proof fn lemma_surviving_push(
    rules: Seq<FilterRule>,
    ovs: Seq<ShowFilterOverride>,
    items: Seq<RssItem>,
    it: RssItem,
)
    ensures
        surviving_items(rules, ovs, items.push(it)) == if item_survives(rules, ovs, it.title@) {
            surviving_items(rules, ovs, items).push(it)
        } else {
            surviving_items(rules, ovs, items)
        },
{
    reveal(Seq::filter);
    assert(items.push(it).drop_last() =~= items);
    assert(items.push(it).last() == it);
}

/// How `match_rule` reports one rule against one item.
enum MatchResult {
    Excluded,
    RequireFailed,
    RequirePass,
    Prefer(i32),
}

/// Applies the global rule set and the per-show overrides to feed items.
pub struct FilterEngine {
    pub rules: Vec<FilterRule>,
    pub show_overrides: Vec<ShowFilterOverride>,
}

impl FilterEngine {
    /// Builds an engine; the global rules are kept in priority-descending
    /// evaluation order.
    pub fn new(global_rules: Vec<FilterRule>, show_overrides: Vec<ShowFilterOverride>) -> (r: Self)
        ensures
            r.rules@ == sort_rules_spec(global_rules@),
            r.rules@.to_multiset() == global_rules@.to_multiset(),
            rules_sorted(r.rules@),
            r.show_overrides@ == show_overrides@,
    {
        broadcast use vstd::seq_lib::group_to_multiset_ensures;

        let ghost orig = global_rules@;
        let mut rest = global_rules;
        let ghost mut done: int = 0;
        let mut sorted: Vec<FilterRule> = Vec::new();
        proof {
            assert(orig.subrange(0, 0) =~= Seq::<FilterRule>::empty());
        }
        while rest.len() > 0
            invariant
                rules_sorted(sorted@),
                0 <= done <= orig.len(),
                rest@ == orig.subrange(done, orig.len() as int),
                sorted@ == sort_rules_spec(orig.subrange(0, done)),
                sorted@.to_multiset().add(rest@.to_multiset()) =~= orig.to_multiset(),
            decreases rest@.len(),
        {
            let ghost prev_rest = rest@;
            proof {
                assert(rest@.contains(rest@[0]));
                assert(rest@[0] == orig[done]);
            }
            let x = rest.remove(0);
            let mut p: usize = 0;
            while p < sorted.len() && sorted[p].priority >= x.priority
                invariant
                    0 <= p <= sorted@.len(),
                    forall|j: int| 0 <= j < p ==> sorted@[j].priority >= x.priority,
                decreases sorted@.len() - p,
            {
                p = p + 1;
            }
            proof {
                if (p as int) < sorted@.len() {
                    assert(sorted@[p as int].priority < x.priority);
                }
            }
            let ghost before = sorted@;
            sorted.insert(p, x);
            proof {
                broadcast use vstd::multiset::group_multiset_axioms;

                assert forall|i: int, j: int| 0 <= i < j < sorted@.len() implies sorted@[i].priority
                    >= sorted@[j].priority by {
                    assert(sorted@ == before.insert(p as int, x));
                }
                lemma_insert_rule_at(before, x, p as int);
                assert(orig.subrange(0, done + 1).drop_last() =~= orig.subrange(0, done));
                assert(orig.subrange(0, done + 1).last() == orig[done]);
                assert(sorted@ == sort_rules_spec(orig.subrange(0, done + 1)));
                assert(rest@ =~= orig.subrange(done + 1, orig.len() as int));
                vstd::seq_lib::to_multiset_remove(prev_rest, 0);
                vstd::seq_lib::to_multiset_insert(before, p as int, x);
                assert(prev_rest.contains(x));
                vstd::seq_lib::to_multiset_contains(prev_rest, x);
                assert(prev_rest.to_multiset().count(x) > 0);
                assert(rest@.to_multiset() == prev_rest.to_multiset().remove(x));
                assert(sorted@.to_multiset() == before.to_multiset().insert(x));
                assert(sorted@.to_multiset().add(rest@.to_multiset()) =~= orig.to_multiset());
                done = done + 1;
            }
        }
        proof {
            assert(orig.subrange(0, orig.len() as int) =~= orig);
            assert(rest@.to_multiset().len() == 0);
            assert(sorted@.to_multiset() =~= orig.to_multiset());
        }
        FilterEngine { rules: sorted, show_overrides }
    }

    /// An engine with global rules only.
    pub fn with_global_rules(global_rules: Vec<FilterRule>) -> (r: Self)
        ensures
            r.rules@ == sort_rules_spec(global_rules@),
            r.rules@.to_multiset() == global_rules@.to_multiset(),
            rules_sorted(r.rules@),
            r.show_overrides@.len() == 0,
    {
        Self::new(global_rules, Vec::new())
    }

    /// Whether some override disables the global rule `id` for this show.
    fn disabled_by_override(&self, id: u32) -> (r: bool)
        ensures
            r == exists|k: int|
                0 <= k < self.show_overrides@.len() && is_disable_of(
                    #[trigger] self.show_overrides@[k],
                    id,
                ),
    {
        let mut k: usize = 0;
        while k < self.show_overrides.len()
            invariant
                0 <= k <= self.show_overrides@.len(),
                forall|j: int| 0 <= j < k ==> !is_disable_of(#[trigger] self.show_overrides@[j], id),
            decreases self.show_overrides@.len() - k,
        {
            let o = &self.show_overrides[k];
            if !o.enabled {
                match &o.rule {
                    OverrideRule::DisableGlobal { filter_rule_id } => {
                        if *filter_rule_id == id {
                            return true;
                        }
                    },
                    _ => {},
                }
            }
            k = k + 1;
        }
        false
    }

    /// Whether a pattern matches an item's title under this filter type.
    fn pattern_matches(&self, filter_type: FilterType, pattern: &str, item: &RssItem) -> (r: bool)
        ensures
            r == spec_pattern_matches(filter_type, pattern@, item.title@),
    {
        let tl = to_lower(&chars_of(item.title.as_str()));
        let pl = to_lower(&chars_of(pattern));
        match filter_type {
            FilterType::Group => {
                let mut needle: Vec<char> = Vec::new();
                needle.push('[');
                push_all(&mut needle, &pl);
                needle.push(']');
                proof {
                    assert(needle@ =~= seq!['['] + lower(pattern@) + seq![']']);
                }
                contains_sub(&tl, &needle)
            },
            _ => contains_sub(&tl, &pl),
        }
    }

    /// Holds one rule against one item.
    fn match_rule(&self, rule: &FilterRule, item: &RssItem) -> (r: Option<MatchResult>)
        ensures
            ({
                let m = spec_pattern_matches(rule.filter_type, rule.pattern@, item.title@);
                match rule.action {
                    FilterAction::Exclude => if m {
                        r matches Some(MatchResult::Excluded)
                    } else {
                        r is None
                    },
                    FilterAction::Require => if m {
                        r matches Some(MatchResult::RequirePass)
                    } else {
                        r matches Some(MatchResult::RequireFailed)
                    },
                    FilterAction::Prefer => if m {
                        r matches Some(MatchResult::Prefer(p)) && p as int == rule_points(*rule)
                    } else {
                        r is None
                    },
                }
            }),
    {
        let m = self.pattern_matches(rule.filter_type, rule.pattern.as_str(), item);
        match rule.action {
            FilterAction::Exclude => if m {
                Some(MatchResult::Excluded)
            } else {
                None
            },
            FilterAction::Require => if m {
                Some(MatchResult::RequirePass)
            } else {
                Some(MatchResult::RequireFailed)
            },
            FilterAction::Prefer => if m {
                let points: i32 = if rule.priority >= 1 {
                    rule.priority
                } else {
                    1
                };
                Some(MatchResult::Prefer(points))
            } else {
                None
            },
        }
    }

    /// Evaluates one item against the global rules and the overrides.
    ///
    /// `None` means some rule or override dropped the item; otherwise the
    /// result carries the exact accumulated score and annotations.
    fn evaluate_item(&self, item: RssItem) -> (r: Option<FilterResult>)
        requires
            item_score(self.rules@, self.show_overrides@, item.title@) <= i32::MAX,
        ensures
            match r {
                Some(fr) => fr.item == item && result_matches(
                    self.rules@,
                    self.show_overrides@,
                    fr,
                ),
                None => !item_survives(self.rules@, self.show_overrides@, item.title@),
            },
    {
        let ghost rules = self.rules@;
        let ghost ovs = self.show_overrides@;
        let ghost title = item.title@;
        let mut score: i32 = 0;
        let mut annots: Vec<String> = Vec::new();
        proof {
            assert(rules.subrange(0, 0) =~= Seq::<FilterRule>::empty());
            assert(annots.deep_view() =~= globals_annots(rules.subrange(0, 0), ovs, title));
        }
        let mut i: usize = 0;
        while i < self.rules.len()
            invariant
                self.rules@ == rules,
                self.show_overrides@ == ovs,
                item.title@ == title,
                item_score(rules, ovs, title) <= i32::MAX,
                0 <= i <= rules.len(),
                forall|j: int|
                    0 <= j < i && rule_applies(#[trigger] rules[j], ovs) ==> !rule_blocks(
                        rules[j],
                        title,
                    ),
                score as int == globals_score(rules.subrange(0, i as int), ovs, title),
                score >= 0,
                annots.deep_view() == globals_annots(rules.subrange(0, i as int), ovs, title),
            decreases rules.len() - i,
        {
            let rule = &self.rules[i];
            let applies = rule.enabled && !self.disabled_by_override(rule.id);
            proof {
                assert(rule_applies(rules[i as int], ovs) == applies);
                assert(rules.subrange(0, i + 1).drop_last() =~= rules.subrange(0, i as int));
                assert(rules.subrange(0, i + 1).last() == rules[i as int]);
            }
            if applies {
                match self.match_rule(rule, &item) {
                    Some(MatchResult::Excluded) => {
                        return None;
                    },
                    Some(MatchResult::RequireFailed) => {
                        return None;
                    },
                    Some(MatchResult::RequirePass) => {
                        let a = require_annotation(&rule.name);
                        let ghost prev = annots.deep_view();
                        annots.push(a);
                        proof {
                            assert(annots.deep_view() =~= prev + rule_annots(
                                rules[i as int],
                                ovs,
                                title,
                            ));
                        }
                    },
                    Some(MatchResult::Prefer(points)) => {
                        proof {
                            lemma_globals_score_prefix(rules, ovs, title, i + 1);
                            lemma_overrides_score_nonneg(ovs, title);
                        }
                        score = score + points;
                        let a = prefer_annotation(&rule.name, points);
                        let ghost prev = annots.deep_view();
                        annots.push(a);
                        proof {
                            assert(annots.deep_view() =~= prev + rule_annots(
                                rules[i as int],
                                ovs,
                                title,
                            ));
                        }
                    },
                    None => {
                        proof {
                            assert(rule_annots(rules[i as int], ovs, title) =~= Seq::<
                                Seq<char>,
                            >::empty());
                            assert(annots.deep_view() + rule_annots(rules[i as int], ovs, title)
                                =~= annots.deep_view());
                        }
                    },
                }
            } else {
                proof {
                    assert(rule_annots(rules[i as int], ovs, title) =~= Seq::<Seq<char>>::empty());
                    assert(annots.deep_view() + rule_annots(rules[i as int], ovs, title) =~= annots
                        .deep_view());
                }
            }
            i = i + 1;
        }
        proof {
            assert(rules.subrange(0, rules.len() as int) =~= rules);
            assert(ovs.subrange(0, 0) =~= Seq::<ShowFilterOverride>::empty());
        }
        let mut k: usize = 0;
        while k < self.show_overrides.len()
            invariant
                self.rules@ == rules,
                self.show_overrides@ == ovs,
                item.title@ == title,
                item_score(rules, ovs, title) <= i32::MAX,
                0 <= k <= ovs.len(),
                forall|j: int|
                    0 <= j < rules.len() && rule_applies(#[trigger] rules[j], ovs) ==> !rule_blocks(
                        rules[j],
                        title,
                    ),
                forall|j: int| 0 <= j < k ==> !override_blocks(#[trigger] ovs[j], title),
                score as int == globals_score(rules, ovs, title) + overrides_score(
                    ovs.subrange(0, k as int),
                    title,
                ),
                score >= 0,
                annots.deep_view() == globals_annots(rules, ovs, title) + overrides_annots(
                    ovs.subrange(0, k as int),
                    title,
                ),
            decreases ovs.len() - k,
        {
            let o = &self.show_overrides[k];
            proof {
                assert(ovs.subrange(0, k + 1).drop_last() =~= ovs.subrange(0, k as int));
                assert(ovs.subrange(0, k + 1).last() == ovs[k as int]);
            }
            let mut annotated = false;
            if o.enabled {
                match &o.rule {
                    OverrideRule::Custom { filter_type, pattern, action } => {
                        let m = self.pattern_matches(*filter_type, pattern.as_str(), &item);
                        match action {
                            FilterAction::Exclude => if m {
                                return None;
                            },
                            FilterAction::Require => if !m {
                                return None;
                            },
                            FilterAction::Prefer => if m {
                                proof {
                                    lemma_overrides_score_prefix(ovs, title, k + 1);
                                    lemma_globals_score_nonneg(rules, ovs, title);
                                }
                                score = score + 5;
                                let a = custom_annotation(pattern);
                                let ghost prev = annots.deep_view();
                                annots.push(a);
                                annotated = true;
                                proof {
                                    assert(annots.deep_view() =~= prev + override_annots(
                                        ovs[k as int],
                                        title,
                                    ));
                                }
                            },
                        }
                    },
                    _ => {},
                }
            }
            if !annotated {
                proof {
                    assert(override_annots(ovs[k as int], title) =~= Seq::<Seq<char>>::empty());
                    assert(annots.deep_view() + override_annots(ovs[k as int], title) =~= annots
                        .deep_view());
                }
            }
            k = k + 1;
        }
        proof {
            assert(ovs.subrange(0, ovs.len() as int) =~= ovs);
        }
        Some(FilterResult { item, score, matched_rules: annots })
    }

    /// Applies the rules to a batch of items.
    ///
    /// Dropped items are absent; each survivor carries its exact score
    /// and annotations, and the output is ordered by score descending,
    /// ties by seeder count descending.
    pub fn apply(&self, items: Vec<RssItem>) -> (r: Vec<FilterResult>)
        requires
            forall|k: int|
                0 <= k < items@.len() ==> item_score(
                    self.rules@,
                    self.show_overrides@,
                    #[trigger] items@[k].title@,
                ) <= i32::MAX,
        ensures
            forall|k: int|
                0 <= k < r@.len() ==> result_matches(
                    self.rules@,
                    self.show_overrides@,
                    #[trigger] r@[k],
                ),
            items_of(r@) == sorted_rows(
                self.rules@,
                self.show_overrides@,
                surviving_items(self.rules@, self.show_overrides@, items@),
            ),
            items_of(r@).to_multiset() == surviving_items(
                self.rules@,
                self.show_overrides@,
                items@,
            ).to_multiset(),
            forall|p: int, q: int| 0 <= p < q < r@.len() ==> result_ge(r@[p], r@[q]),
    {
        broadcast use vstd::seq_lib::group_to_multiset_ensures;

        let ghost rules = self.rules@;
        let ghost ovs = self.show_overrides@;
        let ghost orig = items@;
        let mut rest = items;
        let ghost mut i: int = 0;
        let mut out: Vec<FilterResult> = Vec::new();
        proof {
            reveal(Seq::filter);
            assert(orig.subrange(0, 0) =~= Seq::<RssItem>::empty());
            assert(surviving_items(rules, ovs, orig.subrange(0, 0)) =~= Seq::<RssItem>::empty());
            assert(items_of(out@) =~= Seq::<RssItem>::empty());
            assert(items_of(out@) =~= sorted_rows(
                rules,
                ovs,
                surviving_items(rules, ovs, orig.subrange(0, 0)),
            ));
        }
        while rest.len() > 0
            invariant
                self.rules@ == rules,
                self.show_overrides@ == ovs,
                0 <= i <= orig.len(),
                rest@ == orig.subrange(i, orig.len() as int),
                forall|k: int|
                    0 <= k < orig.len() ==> item_score(rules, ovs, #[trigger] orig[k].title@)
                        <= i32::MAX,
                forall|k: int|
                    0 <= k < out@.len() ==> result_matches(rules, ovs, #[trigger] out@[k]),
                items_of(out@) == sorted_rows(
                    rules,
                    ovs,
                    surviving_items(rules, ovs, orig.subrange(0, i)),
                ),
                items_of(out@).to_multiset() == surviving_items(
                    rules,
                    ovs,
                    orig.subrange(0, i),
                ).to_multiset(),
                forall|p: int, q: int| 0 <= p < q < out@.len() ==> result_ge(out@[p], out@[q]),
            decreases rest@.len(),
        {
            let ghost prev_rest = rest@;
            let it = rest.remove(0);
            proof {
                assert(it == orig[i]);
                assert(rest@ =~= orig.subrange(i + 1, orig.len() as int));
                assert(orig.subrange(0, i + 1) =~= orig.subrange(0, i).push(it));
                lemma_surviving_push(rules, ovs, orig.subrange(0, i), it);
            }
            match self.evaluate_item(it) {
                Some(fr) => {
                    let mut p: usize = 0;
                    while p < out.len() && result_ge_exec(&out[p], &fr)
                        invariant
                            0 <= p <= out@.len(),
                            forall|j: int| 0 <= j < p ==> result_ge(#[trigger] out@[j], fr),
                        decreases out@.len() - p,
                    {
                        p = p + 1;
                    }
                    proof {
                        if (p as int) < out@.len() {
                            assert(!result_ge(out@[p as int], fr));
                        }
                    }
                    let ghost before = out@;
                    out.insert(p, fr);
                    proof {
                        assert(out@ == before.insert(p as int, fr));
                        assert(forall|x: int| 0 <= x < p ==> out@[x] == before[x]);
                        assert(out@[p as int] == fr);
                        assert(forall|x: int| p < x < out@.len() ==> out@[x] == before[x - 1]);
                        if (p as int) < before.len() {
                            assert(result_ge(fr, before[p as int]));
                        }
                        assert forall|a: int, b: int| 0 <= a < b < out@.len() implies result_ge(
                            out@[a],
                            out@[b],
                        ) by {
                            if b < p {
                            } else if b == p {
                                assert(result_ge(before[a], fr));
                            } else if a < p {
                                assert(result_ge(before[a], before[b - 1]));
                            } else if a == p {
                                assert(result_ge(fr, before[p as int]));
                                if b - 1 > p {
                                    assert(result_ge(before[p as int], before[b - 1]));
                                }
                            } else {
                                assert(result_ge(before[a - 1], before[b - 1]));
                            }
                        }
                        assert forall|j: int| 0 <= j < p implies row_ge(
                            rules,
                            ovs,
                            #[trigger] items_of(before)[j],
                            fr.item,
                        ) by {
                            assert(result_matches(rules, ovs, before[j]));
                            assert(result_ge(before[j], fr));
                            assert(items_of(before)[j] == before[j].item);
                        }
                        if (p as int) < before.len() {
                            assert(result_matches(rules, ovs, before[p as int]));
                            assert(!row_ge(rules, ovs, items_of(before)[p as int], fr.item));
                        }
                        lemma_insert_row_at(rules, ovs, items_of(before), fr.item, p as int);
                        let ghost surv_prev = surviving_items(rules, ovs, orig.subrange(0, i));
                        assert(surviving_items(rules, ovs, orig.subrange(0, i + 1)).drop_last()
                            =~= surv_prev);
                        assert(items_of(out@) =~= items_of(before).insert(p as int, fr.item));
                        assert(items_of(out@) == sorted_rows(
                            rules,
                            ovs,
                            surviving_items(rules, ovs, orig.subrange(0, i + 1)),
                        ));
                        vstd::seq_lib::to_multiset_insert(items_of(before), p as int, fr.item);
                        assert(surviving_items(rules, ovs, orig.subrange(0, i + 1))
                            == surviving_items(rules, ovs, orig.subrange(0, i)).push(it));
                        vstd::seq_lib::to_multiset_build(
                            surviving_items(rules, ovs, orig.subrange(0, i)),
                            it,
                        );
                        assert(fr.item == it);
                        assert(items_of(out@).to_multiset() == surviving_items(
                            rules,
                            ovs,
                            orig.subrange(0, i + 1),
                        ).to_multiset());
                    }
                },
                None => {
                    proof {
                        assert(surviving_items(rules, ovs, orig.subrange(0, i + 1))
                            == surviving_items(rules, ovs, orig.subrange(0, i)));
                    }
                },
            }
            proof {
                i = i + 1;
            }
        }
        proof {
            assert(orig.subrange(0, orig.len() as int) =~= orig);
        }
        out
    }
}

/// Exclude dominance: when a participating Exclude rule matches an item's
/// title, the item is dropped, independent of every other rule and of any
/// relative priority; no filter result can carry that title.
pub proof fn lemma_exclude_dominates(
    rules: Seq<FilterRule>,
    ovs: Seq<ShowFilterOverride>,
    title: Seq<char>,
    ei: int,
)
    requires
        0 <= ei < rules.len(),
        rule_applies(rules[ei], ovs),
        rules[ei].action is Exclude,
        spec_pattern_matches(rules[ei].filter_type, rules[ei].pattern@, title),
    ensures
        !item_survives(rules, ovs, title),
        forall|fr: FilterResult|
            result_matches(rules, ovs, fr) ==> (#[trigger] fr.item.title@) != title,
{
    assert(rule_blocks(rules[ei], title));
}

proof fn lemma_globals_score_zero(
    rules: Seq<FilterRule>,
    ovs: Seq<ShowFilterOverride>,
    title: Seq<char>,
)
    requires
        forall|j: int| 0 <= j < rules.len() ==> rule_score(#[trigger] rules[j], ovs, title) == 0,
    ensures
        globals_score(rules, ovs, title) == 0,
    decreases rules.len(),
{
    if rules.len() > 0 {
        let prev = rules.drop_last();
        assert(forall|j: int| 0 <= j < prev.len() ==> prev[j] == rules[j]);
        lemma_globals_score_zero(prev, ovs, title);
    }
}

/// When exactly one rule contributes to an item's score, the global score
/// is that rule's contribution.
pub proof fn lemma_globals_score_single(
    rules: Seq<FilterRule>,
    ovs: Seq<ShowFilterOverride>,
    title: Seq<char>,
    idx: int,
)
    requires
        0 <= idx < rules.len(),
        forall|j: int|
            0 <= j < rules.len() && j != idx ==> rule_score(#[trigger] rules[j], ovs, title) == 0,
    ensures
        globals_score(rules, ovs, title) == rule_score(rules[idx], ovs, title),
    decreases rules.len(),
{
    let prev = rules.drop_last();
    assert(forall|j: int| 0 <= j < prev.len() ==> prev[j] == rules[j]);
    if idx == rules.len() - 1 {
        lemma_globals_score_zero(prev, ovs, title);
    } else {
        lemma_globals_score_single(prev, ovs, title, idx);
    }
}

/// Priority ordering, score side: of two enabled Prefer rules matching
/// disjoint items, with no overrides in play, the item matching the
/// higher-priority rule scores strictly higher.
pub proof fn lemma_prefer_priority_scores(
    ra: FilterRule,
    rb: FilterRule,
    title_a: Seq<char>,
    title_b: Seq<char>,
)
    requires
        ra.action is Prefer,
        rb.action is Prefer,
        ra.enabled,
        rb.enabled,
        rule_points(ra) > rule_points(rb),
        spec_pattern_matches(ra.filter_type, ra.pattern@, title_a),
        !spec_pattern_matches(ra.filter_type, ra.pattern@, title_b),
        spec_pattern_matches(rb.filter_type, rb.pattern@, title_b),
        !spec_pattern_matches(rb.filter_type, rb.pattern@, title_a),
    ensures
        item_score(seq![ra, rb], Seq::empty(), title_a) > item_score(
            seq![ra, rb],
            Seq::empty(),
            title_b,
        ),
{
    let rules = seq![ra, rb];
    let ovs = Seq::<ShowFilterOverride>::empty();
    assert(rule_applies(ra, ovs));
    assert(rule_applies(rb, ovs));
    lemma_globals_score_single(rules, ovs, title_a, 0);
    lemma_globals_score_single(rules, ovs, title_b, 1);
}

/// Priority ordering, position side: in a result list ordered the way
/// `apply` orders it, an item with a strictly higher score stands
/// strictly earlier, whatever the seeder counts.
pub proof fn lemma_higher_score_sorts_first(r: Seq<FilterResult>, a: int, b: int)
    requires
        forall|p: int, q: int| 0 <= p < q < r.len() ==> result_ge(#[trigger] r[p], #[trigger] r[q]),
        0 <= a < r.len(),
        0 <= b < r.len(),
        r[a].score > r[b].score,
    ensures
        a < b,
{
    if a > b {
        assert(result_ge(r[b], r[a]));
    }
}

/// Disabled global filter: an override of the disable shape switches one
/// Exclude rule off for its show, so an item that rule alone would drop
/// now survives, while the same rule still drops the item where no
/// override is present.
pub proof fn lemma_override_disables_global(
    rules: Seq<FilterRule>,
    o: ShowFilterOverride,
    title: Seq<char>,
    ei: int,
)
    requires
        0 <= ei < rules.len(),
        rules[ei].enabled,
        rules[ei].action is Exclude,
        spec_pattern_matches(rules[ei].filter_type, rules[ei].pattern@, title),
        forall|j: int|
            0 <= j < rules.len() && j != ei ==> !rule_blocks(#[trigger] rules[j], title),
        !o.enabled,
        o.rule matches OverrideRule::DisableGlobal { filter_rule_id: fid } && fid == rules[ei].id,
    ensures
        item_survives(rules, seq![o], title),
        !item_survives(rules, Seq::empty(), title),
{
    let ovs = seq![o];
    assert(is_disable_of(ovs[0], rules[ei].id));
    assert(!rule_applies(rules[ei], ovs));
    assert forall|j: int| 0 <= j < rules.len() && rule_applies(#[trigger] rules[j], ovs)
        implies !rule_blocks(rules[j], title) by {
        if j == ei {
            assert(is_disable_of(ovs[0], rules[j].id));
        }
    }
    assert(forall|k: int| 0 <= k < ovs.len() ==> !override_blocks(#[trigger] ovs[k], title));
    assert(rule_applies(rules[ei], Seq::empty()));
    assert(rule_blocks(rules[ei], title));
}

/// Empty-result safety: a participating Require rule that matches no item
/// in the batch leaves nothing surviving; the outcome is an empty result
/// list, not an error.
pub proof fn lemma_require_unmatched_empties(
    rules: Seq<FilterRule>,
    ovs: Seq<ShowFilterOverride>,
    items: Seq<RssItem>,
    ri: int,
)
    requires
        0 <= ri < rules.len(),
        rule_applies(rules[ri], ovs),
        rules[ri].action is Require,
        forall|k: int|
            0 <= k < items.len() ==> !spec_pattern_matches(
                rules[ri].filter_type,
                rules[ri].pattern@,
                (#[trigger] items[k]).title@,
            ),
    ensures
        surviving_items(rules, ovs, items).len() == 0,
    decreases items.len(),
{
    if items.len() == 0 {
        reveal(Seq::filter);
    } else {
        let prev = items.drop_last();
        let it = items.last();
        assert(forall|j: int| 0 <= j < prev.len() ==> prev[j] == items[j]);
        lemma_require_unmatched_empties(rules, ovs, prev, ri);
        assert(items =~= prev.push(it));
        lemma_surviving_push(rules, ovs, prev, it);
        assert(rule_blocks(rules[ri], it.title@));
        assert(!item_survives(rules, ovs, it.title@));
    }
}

/// The result comparator: score descending, ties by seeders descending.
fn result_ge_exec(a: &FilterResult, b: &FilterResult) -> (r: bool)
    ensures
        r == result_ge(*a, *b),
{
    a.score > b.score || (a.score == b.score && a.item.seeders >= b.item.seeders)
}

/// Builds the `name (+points)` annotation of a matching Prefer rule.
fn prefer_annotation(name: &String, points: i32) -> (r: String)
    requires
        points >= 1,
    ensures
        r@ == name@ + " (+"@ + dec_chars(points as int) + ")"@,
{
    let mut cs = chars_of(name.as_str());
    push_all(&mut cs, &chars_of(" (+"));
    push_all(&mut cs, &u32_chars(points as u32));
    push_all(&mut cs, &chars_of(")"));
    string_of(&cs)
}

/// Builds the `name (required)` annotation of a passed Require rule.
fn require_annotation(name: &String) -> (r: String)
    ensures
        r@ == name@ + " (required)"@,
{
    let mut cs = chars_of(name.as_str());
    push_all(&mut cs, &chars_of(" (required)"));
    string_of(&cs)
}

/// Builds the `show:pattern (+5)` annotation of a custom Prefer override.
fn custom_annotation(pattern: &String) -> (r: String)
    ensures
        r@ == "show:"@ + pattern@ + " (+5)"@,
{
    let mut cs = chars_of("show:");
    push_all(&mut cs, &chars_of(pattern.as_str()));
    push_all(&mut cs, &chars_of(" (+5)"));
    string_of(&cs)
}

} // verus!
