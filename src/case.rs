//! Scripted multi-node cases: what each case starts, how its nodes are brought into
//! line before it runs, and the rules its run checks.
use vstd::prelude::*;

verus! {

/// The epoch from which the rule on block extensions holds.
pub const RFC0224_EPOCH_NUMBER: u64 = 3;

/// The epoch from which relative time locks count by median time.
pub const RFC0221_EPOCH_NUMBER: u64 = 3;

/// The largest block extension, in bytes, that the rule on extensions admits.
pub const MAX_EXTENSION_SIZE: usize = 96;

/// Blocks mined past the switch before a time-lock case builds its transaction.
pub const BLOCKS_PAST_SWITCH: u64 = 37;

/// The relative time lock, in seconds, of the time-lock case's transaction.
pub const TIME_LOCK_SECS: u64 = 2;

/// How one node of a case is set up.
#[derive(Clone, Debug)]
pub struct NodeOptions {
    pub node_name: String,
    /// Run the newer node binary rather than the older one.
    pub newer_binary: bool,
    pub initial_database: String,
    pub chain_spec: String,
    pub app_config: String,
}

/// How a case sets up its nodes.
#[derive(Clone, Debug)]
pub struct CaseOptions {
    pub make_all_nodes_connected: bool,
    pub make_all_nodes_synced: bool,
    pub make_all_nodes_connected_and_synced: bool,
    pub node_options: Vec<NodeOptions>,
}

/// One step of bringing a case's nodes into line; nodes are named by their index in
/// the case's options.
#[derive(Clone, Copy, Debug, PartialEq, Eq, Structural)]
pub enum SetupStep {
    Start(usize),
    Mine(usize),
    ConnectAll,
    /// Submit the tip block of the first node to the given one.
    SubmitTipTo(usize),
    WaitForSync,
}

/// Options with one node on the newer binary, named and configured as given.
pub open spec fn one_newer_node(
    o: CaseOptions,
    name: Seq<char>,
    database: Seq<char>,
    chain_spec: Seq<char>,
    app_config: Seq<char>,
) -> bool {
    &&& o.node_options@.len() == 1
    &&& o.node_options@[0].node_name@ == name
    &&& o.node_options@[0].newer_binary
    &&& o.node_options@[0].initial_database@ == database
    &&& o.node_options@[0].chain_spec@ == chain_spec
    &&& o.node_options@[0].app_config@ == app_config
}

/// Options whose three setup flags all equal `flag`.
pub open spec fn flags_all(o: CaseOptions, flag: bool) -> bool {
    o.make_all_nodes_connected == flag && o.make_all_nodes_synced == flag
        && o.make_all_nodes_connected_and_synced == flag
}

/// The options of the extension case.
pub open spec fn rfc0224_options_spec(o: CaseOptions) -> bool {
    flags_all(o, false) && one_newer_node(
        o,
        "node2021"@,
        "db/Epoch2V2TestData"@,
        "spec/ckb2021"@,
        "config/ckb2021"@,
    )
}

/// The options of the time-lock case.
pub open spec fn rfc0221_options_spec(o: CaseOptions) -> bool {
    flags_all(o, true) && one_newer_node(
        o,
        "ckb-fork2021"@,
        "db/Epoch2V2TestData"@,
        "spec/ckb-fork2021"@,
        "config/ckb-fork2021"@,
    )
}

/// A scripted case.
pub trait Case {
    /// The name the case reports.
    spec fn spec_name(&self) -> Seq<char>;

    /// What the case's options are.
    spec fn spec_options(&self, o: CaseOptions) -> bool;

    fn case_name(&self) -> (r: &'static str)
        ensures
            r@ == self.spec_name(),
    ;

    fn case_options(&self) -> (r: CaseOptions)
        ensures
            self.spec_options(r),
    ;
}

/// The case that checks block extensions after the switch.
pub struct RFC0224AfterSwitch;

/// The case that checks relative time locks after the switch.
pub struct RFC0221AfterSwitch;

impl Case for RFC0224AfterSwitch {
    open spec fn spec_name(&self) -> Seq<char> {
        "RFC0224AfterSwitch"@
    }

    open spec fn spec_options(&self, o: CaseOptions) -> bool {
        rfc0224_options_spec(o)
    }

    fn case_name(&self) -> &'static str {
        "RFC0224AfterSwitch"
    }

    fn case_options(&self) -> CaseOptions {
        rfc0224_options()
    }
}

/// The options of the RFC0224AfterSwitch case: one node on the newer binary.
pub fn rfc0224_options() -> (r: CaseOptions)
    ensures
        rfc0224_options_spec(r),
{
    let mut node_options: Vec<NodeOptions> = Vec::new();
    node_options.push(
        NodeOptions {
            node_name: String::from_str("node2021"),
            newer_binary: true,
            initial_database: String::from_str("db/Epoch2V2TestData"),
            chain_spec: String::from_str("spec/ckb2021"),
            app_config: String::from_str("config/ckb2021"),
        },
    );
    CaseOptions {
        make_all_nodes_connected: false,
        make_all_nodes_synced: false,
        make_all_nodes_connected_and_synced: false,
        node_options,
    }
}

impl Case for RFC0221AfterSwitch {
    open spec fn spec_name(&self) -> Seq<char> {
        "RFC0221AfterSwitch"@
    }

    open spec fn spec_options(&self, o: CaseOptions) -> bool {
        rfc0221_options_spec(o)
    }

    fn case_name(&self) -> &'static str {
        "RFC0221AfterSwitch"
    }

    fn case_options(&self) -> CaseOptions {
        rfc0221_options()
    }
}

/// The options of the RFC0221AfterSwitch case: one node on the newer binary.
pub fn rfc0221_options() -> (r: CaseOptions)
    ensures
        rfc0221_options_spec(r),
{
    let mut node_options: Vec<NodeOptions> = Vec::new();
    node_options.push(
        NodeOptions {
            node_name: String::from_str("ckb-fork2021"),
            newer_binary: true,
            initial_database: String::from_str("db/Epoch2V2TestData"),
            chain_spec: String::from_str("spec/ckb-fork2021"),
            app_config: String::from_str("config/ckb-fork2021"),
        },
    );
    CaseOptions {
        make_all_nodes_connected: true,
        make_all_nodes_synced: true,
        make_all_nodes_connected_and_synced: true,
        node_options,
    }
}

/// The cases this crate knows.
#[derive(Clone, Copy, Debug, PartialEq, Eq, Structural)]
pub enum CaseKind {
    RFC0221AfterSwitch,
    RFC0224AfterSwitch,
    /// The case that relays a transaction between nodes after the switch. Its node
    /// options and its steps are not held by this crate, so it cannot be prepared here.
    RFC0234AfterSwitchRelayTransaction,
}

/// Whether this crate holds the options and steps of a case.
pub open spec fn prepared_here(case: CaseKind) -> bool {
    case != CaseKind::RFC0234AfterSwitchRelayTransaction
}

/// The cases that a run starts, in order: the relay-transaction case alone; the others
/// are disabled.
pub fn all_cases() -> (r: Vec<CaseKind>)
    ensures
        r@ == seq![CaseKind::RFC0234AfterSwitchRelayTransaction],
{
    let mut r: Vec<CaseKind> = Vec::new();
    r.push(CaseKind::RFC0234AfterSwitchRelayTransaction);
    assert(r@ =~= seq![CaseKind::RFC0234AfterSwitchRelayTransaction]);
    r
}

/// `::` starts at `j` in `s`.
pub open spec fn sep_at(s: Seq<char>, j: int) -> bool {
    0 <= j && j + 1 < s.len() && s[j] == ':' && s[j + 1] == ':'
}

/// The last segment of a path: what follows its last `::`, or the whole of it where it
/// has none.
pub open spec fn last_segment(s: Seq<char>) -> Seq<char> {
    if exists|j: int| sep_at(s, j) {
        let j = choose|j: int| sep_at(s, j) && forall|k: int| j < k ==> !sep_at(s, k);
        s.subrange(j + 2, s.len() as int)
    } else {
        s
    }
}

/// The name of a case, from the full path of its type: its last segment.
pub fn case_name(path: &str) -> (r: &str)
    ensures
        r@ == last_segment(path@),
{
    let n = path.unicode_len();
    let mut j: usize = n;
    while j >= 2
        invariant
            n == path@.len(),
            j <= n,
            forall|k: int| j - 1 <= k < n ==> !sep_at(path@, k),
        decreases j,
    {
        if path.get_char(j - 2) == ':' && path.get_char(j - 1) == ':' {
            proof {
                let p = (j - 2) as int;
                assert(sep_at(path@, p));
                assert(forall|k: int| p < k ==> !sep_at(path@, k));
                let q = choose|q: int|
                    sep_at(path@, q) && forall|k: int| q < k ==> !sep_at(path@, k);
                assert(q == p);
            }
            return path.substring_char(j, n);
        }
        j = j - 1;
    }
    proof {
        assert forall|k: int| !sep_at(path@, k) by {
            if 0 <= k && k + 1 < n {
                assert(k >= j - 1);
            }
        }
    }
    path
}

/// Whether the extension rule holds at the given epoch.
pub fn is_rfc0224_switched(epoch_number: u64) -> (r: bool)
    ensures
        r == (epoch_number >= RFC0224_EPOCH_NUMBER),
{
    epoch_number >= RFC0224_EPOCH_NUMBER
}

/// Whether the time-lock rule holds at the given epoch.
pub fn is_rfc0221_switched(epoch_number: u64) -> (r: bool)
    ensures
        r == (epoch_number >= RFC0221_EPOCH_NUMBER),
{
    epoch_number >= RFC0221_EPOCH_NUMBER
}

/// The steps that start the `n` nodes of a case and bring them into line.
pub open spec fn setup_plan(connected: bool, synced: bool, both: bool, n: nat) -> Seq<SetupStep> {
    let start = Seq::new(n, |i: int| SetupStep::Start(i as usize));
    if both {
        start + Seq::new(n, |i: int| SetupStep::Mine(i as usize)) + seq![
            SetupStep::ConnectAll,
            SetupStep::Mine(0),
            SetupStep::WaitForSync,
        ]
    } else {
        let c = if connected {
            seq![SetupStep::ConnectAll]
        } else {
            Seq::empty()
        };
        let s = if synced {
            seq![SetupStep::Mine(0)] + Seq::new(
                (n - 1) as nat,
                |i: int| SetupStep::SubmitTipTo((i + 1) as usize),
            ) + seq![SetupStep::WaitForSync]
        } else {
            Seq::empty()
        };
        start + c + s
    }
}

/// The setup that a case's options ask for: start every node; then, where the nodes
/// are to be connected and synced, mine a block on each, connect them, mine one more
/// on the first and wait; otherwise connect them if asked, and if asked to sync, mine
/// on the first, hand its tip to every other and wait. Syncing needs at least one node.
pub fn before_run(options: &CaseOptions) -> (r: Vec<SetupStep>)
    requires
        options.node_options@.len() > 0 || (!options.make_all_nodes_connected_and_synced
            && !options.make_all_nodes_synced),
    ensures
        r@ == setup_plan(
            options.make_all_nodes_connected,
            options.make_all_nodes_synced,
            options.make_all_nodes_connected_and_synced,
            options.node_options@.len(),
        ),
{
    let n = options.node_options.len();
    let mut r: Vec<SetupStep> = Vec::new();
    let ghost start = Seq::new(n as nat, |i: int| SetupStep::Start(i as usize));
    let mut i: usize = 0;
    while i < n
        invariant
            i <= n,
            start == Seq::new(n as nat, |i: int| SetupStep::Start(i as usize)),
            r@ =~= start.subrange(0, i as int),
        decreases n - i,
    {
        r.push(SetupStep::Start(i));
        i = i + 1;
    }
    assert(r@ =~= start);
    if options.make_all_nodes_connected_and_synced {
        let ghost mines = Seq::new(n as nat, |i: int| SetupStep::Mine(i as usize));
        let mut i: usize = 0;
        while i < n
            invariant
                i <= n,
                mines == Seq::new(n as nat, |i: int| SetupStep::Mine(i as usize)),
                r@ =~= start + mines.subrange(0, i as int),
            decreases n - i,
        {
            r.push(SetupStep::Mine(i));
            i = i + 1;
        }
        r.push(SetupStep::ConnectAll);
        r.push(SetupStep::Mine(0));
        r.push(SetupStep::WaitForSync);
        assert(r@ =~= start + mines + seq![
            SetupStep::ConnectAll,
            SetupStep::Mine(0),
            SetupStep::WaitForSync,
        ]);
    } else {
        let ghost c = if options.make_all_nodes_connected {
            seq![SetupStep::ConnectAll]
        } else {
            Seq::empty()
        };
        if options.make_all_nodes_connected {
            r.push(SetupStep::ConnectAll);
        }
        assert(r@ =~= start + c);
        if options.make_all_nodes_synced {
            let ghost subs = Seq::new((n - 1) as nat, |i: int| SetupStep::SubmitTipTo((i + 1) as usize));
            r.push(SetupStep::Mine(0));
            let mut k: usize = 1;
            while k < n
                invariant
                    1 <= k <= n,
                    subs == Seq::new((n - 1) as nat, |i: int| SetupStep::SubmitTipTo((i + 1) as usize)),
                    r@ =~= start + c + seq![SetupStep::Mine(0)] + subs.subrange(0, k - 1),
                decreases n - k,
            {
                r.push(SetupStep::SubmitTipTo(k));
                k = k + 1;
            }
            r.push(SetupStep::WaitForSync);
            assert(r@ =~= start + c + (seq![SetupStep::Mine(0)] + subs + seq![SetupStep::WaitForSync]));
        } else {
            assert(r@ =~= start + c + Seq::empty());
        }
    }
    r
}

/// The options of a case.
pub fn options_of(case: CaseKind) -> (r: Option<CaseOptions>)
    ensures
        r is Some <==> prepared_here(case),
        case == CaseKind::RFC0221AfterSwitch ==> rfc0221_options_spec(r->Some_0),
        case == CaseKind::RFC0224AfterSwitch ==> rfc0224_options_spec(r->Some_0),
{
    match case {
        CaseKind::RFC0221AfterSwitch => Some(rfc0221_options()),
        CaseKind::RFC0224AfterSwitch => Some(rfc0224_options()),
        CaseKind::RFC0234AfterSwitchRelayTransaction => None,
    }
}

/// The name a case reports.
pub open spec fn name_of(case: CaseKind) -> &'static str {
    match case {
        CaseKind::RFC0221AfterSwitch => "RFC0221AfterSwitch",
        CaseKind::RFC0224AfterSwitch => "RFC0224AfterSwitch",
        CaseKind::RFC0234AfterSwitchRelayTransaction => "RFC0234AfterSwitchRelayTransaction",
    }
}

/// Whether a case asks for its nodes to be connected and synced.
pub open spec fn lines_up(case: CaseKind) -> bool {
    case == CaseKind::RFC0221AfterSwitch
}

/// One block submission of the extension case: the extension's size (none: no
/// extension) and the answer the node must give.
#[derive(Clone, Copy, Debug, PartialEq, Eq)]
pub struct ExtensionCheck {
    pub size: Option<usize>,
    pub expected: Result<(), ExtensionError>,
}

/// What a case does once its nodes are set up.
#[derive(Debug)]
pub enum RunScript {
    /// Mine until the switch, then `blocks_past_switch` blocks more; then a transaction
    /// with a relative time lock of `relative_secs` must be refused until the lock
    /// matures and accepted after.
    TimeLock { blocks_past_switch: u64, relative_secs: u64 },
    /// Mine until the switch, then submit one block for each check and expect its answer,
    /// the nodes staying in sync after each.
    Extensions(Vec<ExtensionCheck>),
}

/// The extension sizes the extension case tries, in order.
pub open spec fn extension_sizes() -> Seq<Option<usize>> {
    seq![None, Some(0usize), Some(1usize), Some(16usize), Some(32usize), Some(64usize), Some(96usize), Some(97usize)]
}

/// The checks of the extension case: each size of `extension_sizes` with the answer the
/// rule gives it.
pub open spec fn extension_checks(c: Seq<ExtensionCheck>) -> bool {
    &&& c.len() == extension_sizes().len()
    &&& forall|i: int|
        0 <= i < c.len() ==> #[trigger] c[i].size == extension_sizes()[i] && c[i].expected
            == extension_expected(c[i].size)
}

/// The run of a case: its name, the setup of its nodes, then what it does on them.
#[derive(Debug)]
pub struct CaseRun {
    pub name: String,
    pub setup: Vec<SetupStep>,
    pub script: RunScript,
}

/// Builds the checks of the extension case.
pub fn extension_plan() -> (r: Vec<ExtensionCheck>)
    ensures
        extension_checks(r@),
{
    let sizes: Vec<Option<usize>> = vec![None, Some(0), Some(1), Some(16), Some(32), Some(64), Some(96), Some(97)];
    assert(sizes@ =~= extension_sizes());
    let mut r: Vec<ExtensionCheck> = Vec::new();
    let mut k: usize = 0;
    while k < sizes.len()
        invariant
            k <= sizes@.len(),
            sizes@ == extension_sizes(),
            r@.len() == k,
            forall|i: int|
                0 <= i < k ==> #[trigger] r@[i].size == extension_sizes()[i] && r@[i].expected
                    == extension_expected(r@[i].size),
        decreases sizes@.len() - k,
    {
        let size = sizes[k];
        r.push(ExtensionCheck { size, expected: expected_extension_result(size) });
        k = k + 1;
    }
    r
}

/// The run of a case: the name it reports, the steps that set up its nodes, and the
/// script it follows on them; nothing for a case whose options and steps this crate does
/// not hold. Starting nodes and following the script are left to the caller, which
/// talks to the nodes.
pub fn run_case(case: CaseKind) -> (r: Option<CaseRun>)
    ensures
        r is Some <==> prepared_here(case),
        r is Some ==> r->Some_0.name@ == name_of(case)@,
        r is Some ==> r->Some_0.setup@ == setup_plan(lines_up(case), lines_up(case), lines_up(case), 1),
        case == CaseKind::RFC0221AfterSwitch ==> r->Some_0.script == (RunScript::TimeLock {
            blocks_past_switch: BLOCKS_PAST_SWITCH,
            relative_secs: TIME_LOCK_SECS,
        }),
        case == CaseKind::RFC0224AfterSwitch ==> (r->Some_0.script is Extensions
            && extension_checks(r->Some_0.script->Extensions_0@)),
{
    let options = match options_of(case) {
        Some(options) => options,
        None => return None,
    };
    let setup = before_run(&options);
    match case {
        CaseKind::RFC0221AfterSwitch => Some(
            CaseRun {
                name: String::from_str("RFC0221AfterSwitch"),
                setup,
                script: RunScript::TimeLock {
                    blocks_past_switch: BLOCKS_PAST_SWITCH,
                    relative_secs: TIME_LOCK_SECS,
                },
            },
        ),
        _ => Some(
            CaseRun {
                name: String::from_str("RFC0224AfterSwitch"),
                setup,
                script: RunScript::Extensions(extension_plan()),
            },
        ),
    }
}

/// Why a node refuses a block for its extension.
#[derive(Clone, Copy, Debug, PartialEq, Eq, Structural)]
pub enum ExtensionError {
    /// The block carries an extension of no bytes.
    EmptyExtension,
    /// The extension is longer than the rule admits.
    ExceedsMaxLimit,
}

/// The answer of a node under the extension rule to an extension of the given size.
pub open spec fn extension_expected(size: Option<usize>) -> Result<(), ExtensionError> {
    match size {
        None => Ok(()),
        Some(n) => if n == 0 {
            Err(ExtensionError::EmptyExtension)
        } else if n > MAX_EXTENSION_SIZE {
            Err(ExtensionError::ExceedsMaxLimit)
        } else {
            Ok(())
        },
    }
}

/// What a node under the extension rule answers to a block whose extension has the
/// given size (none: no extension): empty and oversized extensions are refused.
pub fn expected_extension_result(size: Option<usize>) -> (r: Result<(), ExtensionError>)
    ensures
        r == extension_expected(size),
{
    match size {
        None => Ok(()),
        Some(n) => if n == 0 {
            Err(ExtensionError::EmptyExtension)
        } else if n > MAX_EXTENSION_SIZE {
            Err(ExtensionError::ExceedsMaxLimit)
        } else {
            Ok(())
        },
    }
}

/// What to do next while moving a chain past the switch.
#[derive(Clone, Copy, Debug, PartialEq, Eq, Structural)]
pub enum AdvanceStep {
    /// Mine a block: the switch has not come.
    Mine,
    /// Mine a block and wait a moment: past the switch, blocks remain to be mined.
    MineAndWait,
    /// The chain is far enough.
    Done,
}

/// Decides the next step of moving the chain past the time-lock switch, given the
/// current epoch and the blocks still to mine past it; returns the step and the blocks
/// that will remain.
pub fn advance_past_switch(epoch_number: u64, remaining: u64) -> (r: (AdvanceStep, u64))
    ensures
        r == (if epoch_number < RFC0221_EPOCH_NUMBER {
            (AdvanceStep::Mine, remaining)
        } else if remaining > 0 {
            (AdvanceStep::MineAndWait, (remaining - 1) as u64)
        } else {
            (AdvanceStep::Done, 0u64)
        }),
{
    if !is_rfc0221_switched(epoch_number) {
        (AdvanceStep::Mine, remaining)
    } else if remaining > 0 {
        (AdvanceStep::MineAndWait, remaining - 1)
    } else {
        (AdvanceStep::Done, 0)
    }
}

/// Whether a relative time lock of `relative_ms`, counted from `start_ms`, has matured
/// at a tip whose median time is `tip_median_ms`.
pub fn since_matured(start_ms: u64, relative_ms: u64, tip_median_ms: u64) -> (r: bool)
    ensures
        r == (start_ms + relative_ms <= tip_median_ms),
{
    (start_ms as u128 + relative_ms as u128) <= tip_median_ms as u128
}

} // verus!
