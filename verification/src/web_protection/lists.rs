//! The lists behind the filter, and taking a refreshed list into use.
use vstd::prelude::*;

use crate::text::{chars_of, ends, ends_with, find_char, same_text, text_of, texts};
use crate::web_protection::service::{WebProtectionConfig, WebProtectionHandle};
use crate::web_protection::start::{Candidate, WebProtection};

verus! {

/// What a list refresh found.
#[derive(Debug, Clone, Copy, PartialEq, Eq, Structural)]
pub struct RefreshReport {
    pub changed: bool,
}

/// Whether the entries of a list stand for themselves alone or for everything
/// below them too.
#[derive(Debug, Clone, Copy, PartialEq, Eq, Structural)]
pub enum ListPolicy {
    Exact,
    Suffix,
}

/// A configured blocklist.
#[derive(Debug)]
pub struct ListSource {
    pub path: String,
    pub policy: ListPolicy,
    /// The file is in the format of a hosts file.
    pub hosts: bool,
    /// The policy as written, where it is none that is known.
    pub unknown_policy: Option<String>,
}

/// One step of filling a fresh filter engine.
#[derive(Debug)]
pub enum ListLoad {
    /// Add an allow rule.
    Allow(String),
    /// Load a blocklist; one that cannot be read is skipped.
    Block(ListSource),
}

/// Where the path of a blocklist setting ends: at its first bar.
pub open spec fn path_end(spec: Seq<char>) -> int {
    if spec.contains('|') {
        spec.index_of_first('|')->0
    } else {
        spec.len() as int
    }
}

/// The path of a blocklist setting.
pub open spec fn path_of(spec: Seq<char>) -> Seq<char> {
    spec.take(path_end(spec))
}

/// What stands behind the bar of a blocklist setting.
pub open spec fn policy_text(spec: Seq<char>) -> Option<Seq<char>> {
    if spec.contains('|') {
        Some(spec.skip(path_end(spec) + 1))
    } else {
        None
    }
}

/// What a blocklist is.
pub ghost struct SourceView {
    pub path: Seq<char>,
    pub policy: ListPolicy,
    pub hosts: bool,
    pub unknown_policy: Option<Seq<char>>,
}

impl View for ListSource {
    type V = SourceView;

    open spec fn view(&self) -> SourceView {
        SourceView {
            path: self.path@,
            policy: self.policy,
            hosts: self.hosts,
            unknown_policy: text_of(self.unknown_policy),
        }
    }
}

/// What a blocklist setting means: `path` or `path|policy`.
pub open spec fn source_of(spec: Seq<char>) -> SourceView {
    let policy = policy_text(spec);
    SourceView {
        path: path_of(spec),
        policy: if policy == Some("suffix"@) {
            ListPolicy::Suffix
        } else {
            ListPolicy::Exact
        },
        hosts: ends(path_of(spec), "hosts"@),
        unknown_policy: if policy == Some("suffix"@) || policy == Some("exact"@) {
            None
        } else {
            policy
        },
    }
}

/// What one step of filling an engine is.
pub ghost enum LoadView {
    Allow(Seq<char>),
    Block(SourceView),
}

impl View for ListLoad {
    type V = LoadView;

    open spec fn view(&self) -> LoadView {
        match self {
            ListLoad::Allow(entry) => LoadView::Allow(entry@),
            ListLoad::Block(source) => LoadView::Block(source@),
        }
    }
}

/// The steps of a plan.
pub open spec fn steps(plan: Seq<ListLoad>) -> Seq<LoadView> {
    plan.map_values(|l: ListLoad| l@)
}

/// The first place of a character that is where it says.
proof fn lemma_first_place(s: Seq<char>, c: char, i: int)
    requires
        0 <= i < s.len(),
        s[i] == c,
        !s.take(i).contains(c),
    ensures
        s.contains(c),
        s.index_of_first(c) == Some(i),
{
    s.index_of_first_ensures(c);
    let k = s.index_of_first(c)->0;
    if k < i {
        assert(s.take(i)[k] == c);
    }
}

/// Reads a blocklist setting.
pub fn list_source(spec: &str) -> (r: ListSource)
    ensures
        r@ == source_of(spec@),
{
    let chars: Vec<char> = chars_of(spec);
    let n: usize = chars.len();
    match find_char(&chars, '|') {
        None => {
            proof {
                assert(spec@.take(n as int) =~= spec@);
            }
            ListSource {
                path: spec.to_owned(),
                policy: ListPolicy::Exact,
                hosts: ends_with(spec, "hosts"),
                unknown_policy: None,
            }
        },
        Some(bar) => {
            proof {
                lemma_first_place(spec@, '|', bar as int);
                assert(spec@.subrange(0, bar as int) =~= path_of(spec@));
                assert(spec@.subrange(bar + 1, n as int) =~= spec@.skip(bar + 1));
                reveal_strlit("suffix");
                reveal_strlit("exact");
            }
            let path: &str = spec.substring_char(0, bar);
            let policy: &str = spec.substring_char(bar + 1, n);
            let suffix: bool = same_text(policy, "suffix");
            let exact: bool = same_text(policy, "exact");
            ListSource {
                path: path.to_owned(),
                policy: if suffix {
                    ListPolicy::Suffix
                } else {
                    ListPolicy::Exact
                },
                hosts: ends_with(path, "hosts"),
                unknown_policy: if suffix || exact {
                    None
                } else {
                    Some(policy.to_owned())
                },
            }
        },
    }
}

/// The step for an allowlist entry.
pub open spec fn allow_step(entry: Seq<char>) -> LoadView {
    LoadView::Allow(entry)
}

/// The step for a blocklist setting.
pub open spec fn block_step(spec: Seq<char>) -> LoadView {
    LoadView::Block(source_of(spec))
}

/// How a fresh engine is filled: every allowlist entry, then every blocklist,
/// each in order.
pub open spec fn list_plan(allows: Seq<Seq<char>>, blocks: Seq<Seq<char>>) -> Seq<LoadView> {
    allows.map_values(|e: Seq<char>| allow_step(e)) + blocks.map_values(
        |b: Seq<char>| block_step(b),
    )
}

/// How a fresh engine is filled from a configuration.
pub open spec fn plan_of(cfg: WebProtectionConfig) -> Seq<LoadView> {
    list_plan(texts(cfg.allowlist@), texts(cfg.blocklists@))
}

/// How to fill a fresh engine from a configuration.
pub fn load_lists(cfg: &WebProtectionConfig) -> (r: Vec<ListLoad>)
    ensures
        steps(r@) == plan_of(*cfg),
{
    let ghost wanted = plan_of(*cfg);
    let ghost allows = cfg.allowlist@.len() as int;
    let mut plan: Vec<ListLoad> = Vec::new();
    let mut i: usize = 0;
    while i < cfg.allowlist.len()
        invariant
            wanted == plan_of(*cfg),
            i <= cfg.allowlist@.len(),
            steps(plan@) == wanted.take(i as int),
        decreases cfg.allowlist@.len() - i,
    {
        let ghost before = plan@;
        plan.push(ListLoad::Allow(cfg.allowlist[i].clone()));
        proof {
            assert(wanted[i as int] == allow_step(cfg.allowlist@[i as int]@));
            assert(steps(plan@) =~= steps(before).push(wanted[i as int]));
            assert(wanted.take(i + 1) =~= wanted.take(i as int).push(wanted[i as int]));
        }
        i = i + 1;
    }
    let mut k: usize = 0;
    while k < cfg.blocklists.len()
        invariant
            wanted == plan_of(*cfg),
            allows == cfg.allowlist@.len(),
            k <= cfg.blocklists@.len(),
            steps(plan@) == wanted.take(allows + k),
        decreases cfg.blocklists@.len() - k,
    {
        let ghost before = plan@;
        plan.push(ListLoad::Block(list_source(cfg.blocklists[k].as_str())));
        proof {
            let at = allows + k;
            assert(wanted[at] == block_step(cfg.blocklists@[k as int]@));
            assert(steps(plan@) =~= steps(before).push(wanted[at]));
            assert(wanted.take(at + 1) =~= wanted.take(at).push(wanted[at]));
        }
        k = k + 1;
    }
    proof {
        assert(wanted.take(wanted.len() as int) =~= wanted);
    }
    plan
}

/// How the engine is rebuilt after a list refresh, where it has to be: that takes
/// a changed list and an engine to swap a new one into, and the configuration is
/// that of the start.
pub open spec fn rebuild_after(handle: WebProtectionHandle, report: RefreshReport) -> Option<
    Seq<LoadView>,
> {
    if report.changed && handle.engine {
        match handle.boot_config {
            Some(cfg) => Some(plan_of(cfg)),
            None => None,
        }
    } else {
        None
    }
}

/// What a finished list refresh asks for: how to fill the fresh engine that is
/// swapped in, where one is.
pub fn apply_refresh_report(handle: &WebProtectionHandle, report: RefreshReport) -> (r: Option<
    Vec<ListLoad>,
>)
    ensures
        match r {
            Some(plan) => rebuild_after(*handle, report) == Some(steps(plan@)),
            None => rebuild_after(*handle, report) is None,
        },
{
    if !report.changed || !handle.engine {
        return None;
    }
    match handle.boot_config() {
        Some(cfg) => Some(load_lists(cfg)),
        None => None,
    }
}

/// Every allow rule is added before the first blocklist is loaded.
pub proof fn allow_rules_come_first(
    allows: Seq<Seq<char>>,
    blocks: Seq<Seq<char>>,
    i: int,
    j: int,
)
    requires
        0 <= i < list_plan(allows, blocks).len(),
        0 <= j < list_plan(allows, blocks).len(),
        list_plan(allows, blocks)[i] is Allow,
        list_plan(allows, blocks)[j] is Block,
    ensures
        i < j,
{
}

/// A blocklist stands for exact names unless its setting says otherwise in so
/// many words.
pub proof fn exact_is_the_default(spec: Seq<char>)
    ensures
        source_of(spec).policy == ListPolicy::Suffix ==> policy_text(spec) == Some("suffix"@)
            && source_of(spec).unknown_policy is None,
        !spec.contains('|') ==> source_of(spec).policy == ListPolicy::Exact && source_of(spec).path
            == spec,
{
    if !spec.contains('|') {
        assert(spec.take(spec.len() as int) =~= spec);
    }
}

/// The entries whose steps are kept.
pub open spec fn kept_entries(
    entries: Seq<Seq<char>>,
    step: spec_fn(Seq<char>) -> LoadView,
    keep: spec_fn(LoadView) -> bool,
) -> Seq<Seq<char>> {
    entries.filter(|e: Seq<char>| keep(step(e)))
}

/// Leaving out entries and then planning is planning and then leaving out steps.
proof fn lemma_kept_entries(
    entries: Seq<Seq<char>>,
    step: spec_fn(Seq<char>) -> LoadView,
    keep: spec_fn(LoadView) -> bool,
)
    ensures
        kept_entries(entries, step, keep).map_values(step) == entries.map_values(step).filter(keep),
    decreases entries.len(),
{
    reveal(Seq::filter);
    if entries.len() > 0 {
        let before = entries.drop_last();
        let last = entries.last();
        lemma_kept_entries(before, step, keep);
        assert(entries.map_values(step).drop_last() =~= before.map_values(step));
        assert(entries.map_values(step).last() == step(last));
        if keep(step(last)) {
            assert(kept_entries(before, step, keep).push(last).map_values(step) =~= kept_entries(
                before,
                step,
                keep,
            ).map_values(step).push(step(last)));
        }
    }
}

/// Each entry stands for itself: leaving out some entries of a configuration
/// leaves out exactly their steps of the plan, and the others stay as they are
/// and in order.
pub proof fn leaving_out_entries_leaves_out_their_steps(
    allows: Seq<Seq<char>>,
    blocks: Seq<Seq<char>>,
    keep: spec_fn(LoadView) -> bool,
)
    ensures
        list_plan(
            kept_entries(allows, |e: Seq<char>| allow_step(e), keep),
            kept_entries(blocks, |b: Seq<char>| block_step(b), keep),
        ) == list_plan(allows, blocks).filter(keep),
{
    let allow = |e: Seq<char>| allow_step(e);
    let block = |b: Seq<char>| block_step(b);
    lemma_kept_entries(allows, allow, keep);
    lemma_kept_entries(blocks, block, keep);
    Seq::filter_distributes_over_add(allows.map_values(allow), blocks.map_values(block), keep);
}

/// Steps that change nothing can be left out.
proof fn lemma_idle_steps<E>(
    engine: E,
    plan: Seq<LoadView>,
    apply: spec_fn(E, LoadView) -> E,
    keep: spec_fn(LoadView) -> bool,
)
    requires
        forall|e: E, step: LoadView| !keep(step) ==> #[trigger] apply(e, step) == e,
    ensures
        plan.filter(keep).fold_left(engine, apply) == plan.fold_left(engine, apply),
    decreases plan.len(),
{
    reveal(Seq::filter);
    reveal_with_fuel(Seq::fold_left, 2);
    if plan.len() > 0 {
        let before = plan.drop_last();
        lemma_idle_steps(engine, before, apply, keep);
        if keep(plan.last()) {
            let kept = before.filter(keep).push(plan.last());
            assert(kept.drop_last() =~= before.filter(keep));
            assert(plan.filter(keep) == kept);
        }
    }
}

/// Entries that cannot be used are skipped, and the ones after them still load:
/// whatever a step does to an engine, where the steps that are not kept change
/// nothing, the engine comes out as if their entries were not configured.
pub proof fn unusable_entries_are_skipped<E>(
    engine: E,
    allows: Seq<Seq<char>>,
    blocks: Seq<Seq<char>>,
    apply: spec_fn(E, LoadView) -> E,
    keep: spec_fn(LoadView) -> bool,
)
    requires
        forall|e: E, step: LoadView| !keep(step) ==> #[trigger] apply(e, step) == e,
    ensures
        list_plan(allows, blocks).fold_left(engine, apply) == list_plan(
            kept_entries(allows, |e: Seq<char>| allow_step(e), keep),
            kept_entries(blocks, |b: Seq<char>| block_step(b), keep),
        ).fold_left(engine, apply),
{
    leaving_out_entries_leaves_out_their_steps(allows, blocks, keep);
    lemma_idle_steps(engine, list_plan(allows, blocks), apply, keep);
}

/// A changed list refills a fresh engine by the plan that the start itself
/// followed, whatever the engine in use has come to hold; an unchanged one leaves
/// that engine alone.
pub proof fn a_refresh_follows_the_plan_of_the_start(
    wp: WebProtection,
    proxy: Candidate,
    healthy: usize,
    total: usize,
    guid: Option<String>,
    report: RefreshReport,
)
    requires
        wp.is_serving(proxy, healthy, total, guid),
    ensures
        rebuild_after(wp.handle, report) == if report.changed {
            Some(plan_of(proxy.cfg))
        } else {
            None
        },
{
}

/// A setting without a bar is the path of a list of exact names.
pub proof fn a_bare_path_is_an_exact_list(path: Seq<char>)
    requires
        !path.contains('|'),
    ensures
        source_of(path).path == path,
        source_of(path).policy == ListPolicy::Exact,
        source_of(path).unknown_policy is None,
{
    assert(path.take(path.len() as int) =~= path);
}

/// In a setting with a bar the path stands before the first bar and the policy,
/// whole, behind it. Of policies only `suffix` is one of suffixes; one that is
/// neither that nor `exact` is kept as it was written.
pub proof fn a_setting_is_a_path_and_a_policy(path: Seq<char>, policy: Seq<char>)
    requires
        !path.contains('|'),
    ensures
        source_of(path + seq!['|'] + policy).path == path,
        source_of(path + seq!['|'] + policy).policy == ListPolicy::Suffix <==> policy == "suffix"@,
        source_of(path + seq!['|'] + policy).policy == ListPolicy::Exact <==> policy != "suffix"@,
        policy == "suffix"@ || policy == "exact"@ ==> source_of(
            path + seq!['|'] + policy,
        ).unknown_policy is None,
        policy != "suffix"@ && policy != "exact"@ ==> source_of(
            path + seq!['|'] + policy,
        ).unknown_policy == Some(policy),
        source_of(path + seq!['|'] + policy).hosts == source_of(path).hosts,
{
    let spec = path + seq!['|'] + policy;
    let bar = path.len() as int;
    assert(spec.take(bar) =~= path);
    lemma_first_place(spec, '|', bar);
    assert(spec.skip(bar + 1) =~= policy);
    assert(path.take(path.len() as int) =~= path);
}

/// A list is a hosts file exactly when its path ends in `hosts`.
pub proof fn a_hosts_file_is_known_by_its_name(path: Seq<char>)
    requires
        !path.contains('|'),
    ensures
        source_of(path).hosts <==> {
            let n = path.len() as int;
            n >= 5 && path[n - 5] == 'h' && path[n - 4] == 'o' && path[n - 3] == 's' && path[n - 2]
                == 't' && path[n - 1] == 's'
        },
{
    assert(path.take(path.len() as int) =~= path);
    reveal_strlit("hosts");
    let n = path.len() as int;
    if n >= 5 {
        let tail = path.subrange(n - 5, n);
        assert(tail[0] == path[n - 5] && tail[1] == path[n - 4] && tail[2] == path[n - 3] && tail[3]
            == path[n - 2] && tail[4] == path[n - 1]);
        if path[n - 5] == 'h' && path[n - 4] == 'o' && path[n - 3] == 's' && path[n - 2] == 't'
            && path[n - 1] == 's' {
            assert(tail =~= "hosts"@);
        }
    }
}

/// Every entry of the configuration has its step, and there is no other: the
/// allowlist in its order, and behind it the blocklists in theirs, each by its own
/// setting.
pub proof fn every_entry_has_its_step(allows: Seq<Seq<char>>, blocks: Seq<Seq<char>>, i: int)
    ensures
        list_plan(allows, blocks).len() == allows.len() + blocks.len(),
        0 <= i < allows.len() ==> list_plan(allows, blocks)[i] == LoadView::Allow(allows[i]),
        0 <= i < blocks.len() ==> list_plan(allows, blocks)[allows.len() + i] == LoadView::Block(
            source_of(blocks[i]),
        ),
{
}

/// The engine is rebuilt exactly when a list changed and there is an engine to
/// swap, from the lists that the configuration of the start names, and from
/// nothing else.
pub proof fn an_engine_is_rebuilt_only_for_a_change(
    handle: WebProtectionHandle,
    report: RefreshReport,
    i: int,
)
    ensures
        rebuild_after(handle, report) is Some <==> report.changed && handle.engine
            && handle.boot_config is Some,
        rebuild_after(handle, report) matches Some(plan) ==> {
            let cfg = handle.boot_config->0;
            let allows = cfg.allowlist@.len() as int;
            &&& plan.len() == allows + cfg.blocklists@.len()
            &&& 0 <= i < allows ==> plan[i] == LoadView::Allow(cfg.allowlist@[i]@)
            &&& 0 <= i < cfg.blocklists@.len() ==> plan[allows + i] == LoadView::Block(
                source_of(cfg.blocklists@[i]@),
            )
        },
{
}

} // verus!
