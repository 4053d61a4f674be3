//! The application snapshot and the controller's state transitions.
//!
//! Every way the snapshot can change — start-up, walker discoveries, the end
//! of a scan, navigation, deletion, refresh, message expiry — is a function
//! here with an exact contract over the snapshot's mathematical model. The
//! shared cell applies these under its lock; the embedding binary only
//! ferries events (key presses, walker messages, removal outcomes, clock
//! readings) in and out.

use crate::format::bytes_len_to_string_prefix;
use crate::format::spec_format_bytes;
use crate::list::ListWithState;
use crate::message::DEFAULT_MESSAGE_DURATION_MS;
use crate::message::Message;
use crate::message::MessageAction;
use crate::message::MessageModel;
use crate::message::MessageType;
use crate::record::TargetDir;
use crate::record::TargetDirModel;
use crate::walker::spec_walker;
use crate::walker::wf_node;
use crate::walker::FsNode;
use crate::walker::TraverseMsg;
use crate::walker::TraverseMsgModel;
use vstd::pervasive::VecAdditionalExecFns;
use vstd::prelude::*;
use vstd::string::StringExecFns;

verus! {

/// How long a deletion notice stays up.
pub const DELETE_MESSAGE_DURATION_MS: u64 = 3000;

/// How long the fatal start-up notice stays up before the app quits.
pub const FATAL_MESSAGE_DURATION_MS: u64 = 10000;

/// Warning shown when the root directory fell back to the working directory.
pub open spec fn warn_fallback_text() -> Seq<char> {
    "The provided root directory isn't valid. Current directory has been loaded instead."@
}

/// Error shown when no usable root directory exists at all.
pub open spec fn fatal_text() -> Seq<char> {
    "The provided root directory isn't valid. App will automatically quit in 10s."@
}

/// Warning shown when a scan found nothing.
pub open spec fn no_targets_text() -> Seq<char> {
    "There is no 'target' directories in this scope"@
}

/// Notice shown when a deletion succeeded.
pub open spec fn delete_ok_text() -> Seq<char> {
    "Successfully deleted folder"@
}

/// Notice shown when a deletion failed.
pub open spec fn delete_failed_text() -> Seq<char> {
    "Failed to delete folder, try again..."@
}

/// Application state that persists across frames.
pub struct AppState {
    /// Root of the scanned tree; absent only in the fatal start-up state.
    pub root_dir: Option<String>,
    /// Discovered artifact directories, in discovery order, with the
    /// selection index.
    pub target_directories: ListWithState<TargetDir>,
    /// Whether a walker is currently active.
    pub searching: bool,
    /// The transient status-line notice, if any.
    pub message: Option<Message>,
    /// Rendered cumulative size of the discovered artifacts.
    pub total_size: String,
}

/// The mathematical content of an [`AppState`].
pub ghost struct AppStateModel {
    pub root_dir: Option<Seq<char>>,
    pub artifacts: Seq<TargetDirModel>,
    pub selected_index: int,
    pub searching: bool,
    pub message: Option<MessageModel>,
    pub total_size: Seq<char>,
}

impl View for AppState {
    type V = AppStateModel;

    open spec fn view(&self) -> AppStateModel {
        AppStateModel {
            root_dir: match self.root_dir {
                Some(s) => Some(s@),
                None => None,
            },
            artifacts: self.target_directories.datas@.map_values(|t: TargetDir| t@),
            selected_index: self.target_directories.index as int,
            searching: self.searching,
            message: match self.message {
                Some(m) => Some(m@),
                None => None,
            },
            total_size: self.total_size@,
        }
    }
}

impl AppState {
    /// The selection index stays inside the artifact list.
    pub open spec fn wf(&self) -> bool {
        self.target_directories.wf()
    }
}

impl Clone for AppState {
    fn clone(&self) -> (r: Self)
        ensures
            r@ == self@,
            r.wf() == self.wf(),
    {
        let r = AppState {
            root_dir: self.root_dir.clone(),
            target_directories: self.target_directories.clone(),
            searching: self.searching,
            message: self.message.clone(),
            total_size: self.total_size.clone(),
        };
        proof {
            assert forall|i: int| 0 <= i < self.target_directories.datas@.len() implies
                r.target_directories.datas@[i]@ == self.target_directories.datas@[i]@ by {
                assert(cloned::<TargetDir>(
                    self.target_directories.datas@[i],
                    r.target_directories.datas@[i],
                ));
            }
            assert(r@.artifacts =~= self@.artifacts);
            assert(r@ == self@);
        }
        r
    }
}

/// Outcome of reading the root directory from the command line.
pub enum ArgOutcome {
    /// Exactly one argument, naming an existing directory.
    Dir(String),
    /// No argument was given.
    NoArgs,
    /// More than one argument was given.
    TooMany,
    /// One argument was given, but it is not an existing directory.
    BadDir,
}

impl AppState {
    /// The start-up state, from the command-line outcome and the working
    /// directory: a valid argument is used as the root; otherwise the
    /// working directory stands in, with a warning unless no argument was
    /// given at all; with no usable directory anywhere, the state is fatal
    /// and carries an error notice that quits the app when it expires.
    pub fn new(arg: ArgOutcome, cwd: Option<String>, now_ms: u64) -> (s: AppState)
        ensures
            s.wf(),
            s@.artifacts.len() == 0,
            s@.selected_index == 0,
            s@.searching == false,
            s@.total_size == "0B"@,
            arg matches ArgOutcome::Dir(p) ==> s@.root_dir == Some(p@) && s@.message is None,
            arg is NoArgs ==> (cwd matches Some(c) ==> s@.root_dir == Some(c@) && s@.message
                is None),
            (arg is TooMany || arg is BadDir) ==> (cwd matches Some(c) ==> {
                &&& s@.root_dir == Some(c@)
                &&& s@.message matches Some(m)
                &&& m.text == warn_fallback_text()
                &&& m.kind == MessageType::Warning
                &&& m.duration_ms == DEFAULT_MESSAGE_DURATION_MS
                &&& m.action is None
            }),
            (!(arg is Dir) && cwd is None) ==> {
                &&& s@.root_dir is None
                &&& s@.message matches Some(m)
                &&& m.text == fatal_text()
                &&& m.kind == MessageType::Error
                &&& m.duration_ms == FATAL_MESSAGE_DURATION_MS
                &&& m.created_at_ms == now_ms
                &&& m.action == Some(MessageAction::Quit)
            },
    {
        let zero = String::from_str("0B");
        match arg {
            ArgOutcome::Dir(p) => AppState {
                root_dir: Some(p),
                target_directories: ListWithState::new(),
                searching: false,
                message: None,
                total_size: zero,
            },
            ArgOutcome::NoArgs => match cwd {
                Some(c) => AppState {
                    root_dir: Some(c),
                    target_directories: ListWithState::new(),
                    searching: false,
                    message: None,
                    total_size: zero,
                },
                None => Self::fatal_state(zero, now_ms),
            },
            ArgOutcome::TooMany | ArgOutcome::BadDir => match cwd {
                Some(c) => AppState {
                    root_dir: Some(c),
                    target_directories: ListWithState::new(),
                    searching: false,
                    message: Some(
                        Message::new(
                            "The provided root directory isn't valid. Current directory has been loaded instead.",
                            MessageType::Warning,
                            None,
                            None,
                            now_ms,
                        ),
                    ),
                    total_size: zero,
                },
                None => Self::fatal_state(zero, now_ms),
            },
        }
    }

    /// The fatal start-up state: no root, and an error notice that quits
    /// the app when it expires.
    fn fatal_state(zero: String, now_ms: u64) -> (s: AppState)
        requires
            zero@ == "0B"@,
        ensures
            s.wf(),
            s@.artifacts.len() == 0,
            s@.selected_index == 0,
            s@.searching == false,
            s@.total_size == "0B"@,
            s@.root_dir is None,
            s@.message matches Some(m) && m.text == fatal_text() && m.kind == MessageType::Error
                && m.duration_ms == FATAL_MESSAGE_DURATION_MS && m.created_at_ms == now_ms
                && m.action == Some(MessageAction::Quit),
    {
        AppState {
            root_dir: None,
            target_directories: ListWithState::new(),
            searching: false,
            message: Some(
                Message::new(
                    "The provided root directory isn't valid. App will automatically quit in 10s.",
                    MessageType::Error,
                    Some(FATAL_MESSAGE_DURATION_MS),
                    Some(MessageAction::Quit),
                    now_ms,
                ),
            ),
            total_size: zero,
        }
    }

    /// Append a discovered record, keeping the selection where it was.
    pub fn push_record(&mut self, rec: TargetDir)
        requires
            old(self).wf(),
        ensures
            final(self).wf(),
            final(self)@ == (AppStateModel {
                artifacts: old(self)@.artifacts.push(rec@),
                ..old(self)@
            }),
    {
        self.target_directories.datas.push(rec);
        proof {
            assert(self@.artifacts =~= old(self)@.artifacts.push(rec@));
        }
    }

    /// Clear the artifact list for a fresh scan: selection back to the
    /// start, total back to zero bytes.
    pub fn clear_records(&mut self)
        requires
            old(self).wf(),
        ensures
            final(self).wf(),
            final(self)@ == (AppStateModel {
                artifacts: Seq::empty(),
                selected_index: 0,
                total_size: "0B"@,
                ..old(self)@
            }),
    {
        self.target_directories.datas.clear();
        self.target_directories.index = 0;
        self.total_size = String::from_str("0B");
        proof {
            assert(self@.artifacts =~= Seq::<TargetDirModel>::empty());
        }
    }

    /// Clear an expired message, or report that its expiry asks the app to
    /// quit; a missing or still-current message is left alone.
    pub fn expire_message(&mut self, now_ms: u64) -> (quit: bool)
        requires
            old(self).wf(),
        ensures
            final(self).wf(),
            quit == (match old(self)@.message {
                Some(m) => m.expired(now_ms) && m.action == Some(MessageAction::Quit),
                None => false,
            }),
            quit ==> final(self)@ == old(self)@,
            (match old(self)@.message {
                Some(m) => !quit && m.expired(now_ms),
                None => false,
            }) ==> final(self)@ == (AppStateModel { message: None, ..old(self)@ }),
            (match old(self)@.message {
                Some(m) => !m.expired(now_ms),
                None => true,
            }) ==> final(self)@ == old(self)@,
    {
        let expired = match &self.message {
            Some(m) => m.should_be_deleted(now_ms),
            None => false,
        };
        if !expired {
            return false;
        }
        let quits = match &self.message {
            Some(m) => match m.action_when_deleted {
                Some(MessageAction::Quit) => true,
                None => false,
            },
            None => false,
        };
        if quits {
            proof {
                assert(self.message->0.action_when_deleted->0 is Quit);
                assert(self.message->0.action_when_deleted == Some(MessageAction::Quit));
            }
            return true;
        }
        self.message = None;
        false
    }

    /// Record whether a walker is active.
    pub fn set_searching(&mut self, searching: bool)
        requires
            old(self).wf(),
        ensures
            final(self).wf(),
            final(self)@ == (AppStateModel { searching, ..old(self)@ }),
    {
        self.searching = searching;
    }

    /// Replace the status-line notice, clearing it with `None`.
    pub fn set_message(&mut self, message: Option<Message>)
        requires
            old(self).wf(),
        ensures
            final(self).wf(),
            final(self)@ == (AppStateModel {
                message: match message {
                    Some(m) => Some(m@),
                    None => None,
                },
                ..old(self)@
            }),
    {
        self.message = message;
    }

    /// Replace the rendered cumulative size.
    pub fn set_total_size(&mut self, val: String)
        requires
            old(self).wf(),
        ensures
            final(self).wf(),
            final(self)@ == (AppStateModel { total_size: val@, ..old(self)@ }),
    {
        self.total_size = val;
    }
}

/// Running bookkeeping the controller keeps for one scan.
#[derive(Clone, Copy, PartialEq, Eq, Structural, Debug)]
pub struct ScanProgress {
    /// Bytes of the records seen so far, saturating at the counter's top.
    pub total: u64,
    /// Whether any record arrived at all.
    pub found_any: bool,
}

impl ScanProgress {
    /// The bookkeeping a scan starts from.
    pub fn start() -> (p: ScanProgress)
        ensures
            p.total == 0,
            !p.found_any,
    {
        ScanProgress { total: 0, found_any: false }
    }
}

/// `a + b`, saturating at the top of the counter.
pub open spec fn sat_add(a: u64, b: u64) -> u64 {
    if a + b > u64::MAX {
        u64::MAX
    } else {
        (a + b) as u64
    }
}

/// Effect of one `Found` message: the record is appended and the running
/// total grows by its size.
pub open spec fn spec_apply_found(
    s: AppStateModel,
    p: ScanProgress,
    rec: TargetDirModel,
    size: u64,
) -> (AppStateModel, ScanProgress) {
    (
        AppStateModel { artifacts: s.artifacts.push(rec), ..s },
        ScanProgress { total: sat_add(p.total, size), found_any: true },
    )
}

/// Effect of the `Done` message: searching ends, the total display is the
/// formatted running total, and a scan that found nothing leaves a warning.
pub open spec fn spec_finish_scan(s: AppStateModel, p: ScanProgress, now_ms: u64) -> AppStateModel {
    AppStateModel {
        searching: false,
        total_size: spec_format_bytes(p.total),
        message: if p.found_any {
            s.message
        } else {
            Some(
                MessageModel {
                    text: no_targets_text(),
                    kind: MessageType::Warning,
                    duration_ms: DEFAULT_MESSAGE_DURATION_MS,
                    created_at_ms: now_ms,
                    action: None,
                },
            )
        },
        ..s
    }
}

/// Effect of one walker message on the snapshot and the bookkeeping.
pub open spec fn spec_apply_msg(
    s: AppStateModel,
    p: ScanProgress,
    m: TraverseMsgModel,
    now_ms: u64,
) -> (AppStateModel, ScanProgress) {
    match m {
        TraverseMsgModel::Found(rec, size) => spec_apply_found(s, p, rec, size),
        TraverseMsgModel::Done => (spec_finish_scan(s, p, now_ms), p),
    }
}

/// Effect of a whole run of walker messages, first to last.
pub open spec fn spec_apply_msgs(
    s: AppStateModel,
    p: ScanProgress,
    msgs: Seq<TraverseMsgModel>,
    now_ms: u64,
) -> (AppStateModel, ScanProgress)
    decreases msgs.len(),
{
    if msgs.len() == 0 {
        (s, p)
    } else {
        let sp = spec_apply_msg(s, p, msgs.first(), now_ms);
        spec_apply_msgs(sp.0, sp.1, msgs.drop_first(), now_ms)
    }
}

impl AppState {
    /// Fold one walker message into the snapshot: `Found` appends the
    /// record and grows the running total; `Done` ends the scan.
    pub fn apply_walker_msg(&mut self, msg: TraverseMsg, progress: &mut ScanProgress, now_ms: u64)
        requires
            old(self).wf(),
        ensures
            final(self).wf(),
            (final(self)@, *final(progress)) == spec_apply_msg(
                old(self)@,
                *old(progress),
                msg@,
                now_ms,
            ),
    {
        match msg {
            TraverseMsg::Found(rec, size) => {
                self.push_record(rec);
                progress.total = progress.total.saturating_add(size);
                progress.found_any = true;
            },
            TraverseMsg::Done => {
                self.finish_scan(progress.total, progress.found_any, now_ms);
            },
        }
    }

    /// End the scan: searching off, the total display set to the formatted
    /// running total, and a warning if nothing was found.
    pub fn finish_scan(&mut self, total: u64, found_any: bool, now_ms: u64)
        requires
            old(self).wf(),
        ensures
            final(self).wf(),
            final(self)@ == spec_finish_scan(
                old(self)@,
                ScanProgress { total, found_any },
                now_ms,
            ),
    {
        self.searching = false;
        self.total_size = bytes_len_to_string_prefix(total);
        if !found_any {
            self.message = Some(
                Message::new(
                    "There is no 'target' directories in this scope",
                    MessageType::Warning,
                    None,
                    None,
                    now_ms,
                ),
            );
        }
    }
}

/// What pressing the delete key should lead to.
pub enum DeleteRequest {
    /// The list is empty: nothing to do.
    Nothing,
    /// The selected record is already deleted: report failure, remove
    /// nothing.
    AlreadyDeleted,
    /// Remove the tree at this path, then report the outcome back.
    Attempt(String),
}

impl AppState {
    /// Rule on a deletion request for the selected record.
    pub fn delete_request(&self) -> (r: DeleteRequest)
        requires
            self.wf(),
        ensures
            self@.artifacts.len() == 0 ==> r is Nothing,
            (self@.artifacts.len() > 0 && self@.artifacts[self@.selected_index].is_deleted)
                ==> r is AlreadyDeleted,
            (self@.artifacts.len() > 0 && !self@.artifacts[self@.selected_index].is_deleted)
                ==> (r matches DeleteRequest::Attempt(p) && p@ == self@.artifacts[self@.selected_index].path),
    {
        if self.target_directories.datas.len() == 0 {
            return DeleteRequest::Nothing;
        }
        let cur = self.target_directories.current();
        if cur.can_delete() {
            DeleteRequest::Attempt(cur.path.clone())
        } else {
            DeleteRequest::AlreadyDeleted
        }
    }

    /// Fold a deletion outcome into the selected record: success marks it
    /// deleted exactly once and posts a success notice; failure — including
    /// a record already deleted — changes no record and posts an error
    /// notice. An empty list changes nothing.
    pub fn delete_current(&mut self, removal: Result<(), String>, now_ms: u64)
        requires
            old(self).wf(),
        ensures
            final(self).wf(),
            old(self)@.artifacts.len() == 0 ==> final(self)@ == old(self)@,
            old(self)@.artifacts.len() > 0 ==> {
                let i = old(self)@.selected_index;
                let cur = old(self)@.artifacts[i];
                &&& final(self)@.root_dir == old(self)@.root_dir
                &&& final(self)@.selected_index == i
                &&& final(self)@.searching == old(self)@.searching
                &&& final(self)@.total_size == old(self)@.total_size
                &&& ((!cur.is_deleted && removal is Ok) ==> {
                    &&& final(self)@.artifacts == old(self)@.artifacts.update(
                        i,
                        TargetDirModel { is_deleted: true, ..cur },
                    )
                    &&& final(self)@.message matches Some(m)
                    &&& m.text == delete_ok_text()
                    &&& m.kind == MessageType::Success
                    &&& m.duration_ms == DELETE_MESSAGE_DURATION_MS
                    &&& m.created_at_ms == now_ms
                    &&& m.action is None
                })
                &&& ((cur.is_deleted || removal is Err) ==> {
                    &&& final(self)@.artifacts == old(self)@.artifacts
                    &&& final(self)@.message matches Some(m)
                    &&& m.text == delete_failed_text()
                    &&& m.kind == MessageType::Error
                    &&& m.duration_ms == DEFAULT_MESSAGE_DURATION_MS
                    &&& m.created_at_ms == now_ms
                    &&& m.action is None
                })
            },
    {
        if self.target_directories.datas.len() == 0 {
            return ;
        }
        let i = self.target_directories.index;
        let mut cur = self.target_directories.datas[i].clone();
        let res = cur.delete(removal);
        self.target_directories.datas.set(i, cur);
        proof {
            assert(self@.artifacts =~= old(self)@.artifacts.update(
                i as int,
                self.target_directories.datas@[i as int]@,
            ));
        }
        match res {
            Ok(()) => {
                self.message = Some(
                    Message::new(
                        "Successfully deleted folder",
                        MessageType::Success,
                        Some(DELETE_MESSAGE_DURATION_MS),
                        None,
                        now_ms,
                    ),
                );
            },
            Err(_) => {
                self.message = Some(
                    Message::new(
                        "Failed to delete folder, try again...",
                        MessageType::Error,
                        None,
                        None,
                        now_ms,
                    ),
                );
                proof {
                    assert(self@.artifacts =~= old(self)@.artifacts);
                }
            },
        }
    }
}

/// Sum of the sizes carried by the `Found` messages of a run.
pub open spec fn found_sizes_total(msgs: Seq<TraverseMsgModel>) -> int
    decreases msgs.len(),
{
    if msgs.len() == 0 {
        0
    } else {
        (match msgs.first() {
            TraverseMsgModel::Found(_, size) => size as int,
            TraverseMsgModel::Done => 0,
        }) + found_sizes_total(msgs.drop_first())
    }
}

/// The records carried by the `Found` messages of a run, in order.
pub open spec fn found_records(msgs: Seq<TraverseMsgModel>) -> Seq<TargetDirModel>
    decreases msgs.len(),
{
    if msgs.len() == 0 {
        Seq::empty()
    } else {
        (match msgs.first() {
            TraverseMsgModel::Found(rec, _) => seq![rec],
            TraverseMsgModel::Done => Seq::empty(),
        }) + found_records(msgs.drop_first())
    }
}

/// Sizes come from `u64` counters, so the running sum never goes negative.
pub proof fn lemma_found_sizes_nonneg(msgs: Seq<TraverseMsgModel>)
    ensures
        found_sizes_total(msgs) >= 0,
    decreases msgs.len(),
{
    if msgs.len() > 0 {
        lemma_found_sizes_nonneg(msgs.drop_first());
    }
}

/// Law: draining a whole walker lifecycle — `Found` messages, then one
/// `Done` — appends exactly the emitted records in emission order, turns
/// searching off, and leaves the total-size display equal to the
/// binary-prefix formatting of the sum of the emitted sizes, provided that
/// sum fits the byte counter. A lifecycle with no `Found` leaves the
/// nothing-found warning.
pub proof fn lemma_drain_lifecycle(
    s: AppStateModel,
    p: ScanProgress,
    msgs: Seq<TraverseMsgModel>,
    now_ms: u64,
)
    requires
        msgs.len() > 0,
        msgs.last() == TraverseMsgModel::Done,
        forall|i: int| 0 <= i < msgs.len() - 1 ==> msgs[i] is Found,
        p.total + found_sizes_total(msgs) <= u64::MAX,
    ensures
        ({
            let fin = spec_apply_msgs(s, p, msgs, now_ms).0;
            &&& fin.searching == false
            &&& fin.total_size == spec_format_bytes((p.total + found_sizes_total(msgs)) as u64)
            &&& fin.artifacts == s.artifacts + found_records(msgs)
            &&& fin.root_dir == s.root_dir
            &&& fin.selected_index == s.selected_index
            &&& ((msgs.len() > 1 || p.found_any) ==> fin.message == s.message)
            &&& ((msgs.len() == 1 && !p.found_any) ==> (fin.message matches Some(m) && m.text
                == no_targets_text() && m.kind == MessageType::Warning))
        }),
    decreases msgs.len(),
{
    lemma_found_sizes_nonneg(msgs.drop_first());
    if msgs.len() == 1 {
        assert(msgs.first() == TraverseMsgModel::Done);
        assert(spec_apply_msgs(s, p, msgs, now_ms) == spec_apply_msgs(
            spec_finish_scan(s, p, now_ms),
            p,
            msgs.drop_first(),
            now_ms,
        ));
        assert(msgs.drop_first().len() == 0);
        assert(found_records(msgs.drop_first()) =~= Seq::<TargetDirModel>::empty());
        assert(s.artifacts + found_records(msgs) =~= s.artifacts);
    } else {
        assert(msgs[0] is Found);
        let rec = msgs.first()->Found_0;
        let size = msgs.first()->Found_1;
        let sp = spec_apply_found(s, p, rec, size);
        assert(msgs.drop_first().last() == TraverseMsgModel::Done);
        assert(forall|i: int|
            0 <= i < msgs.drop_first().len() - 1 ==> msgs.drop_first()[i] is Found) by {
            assert(forall|i: int|
                0 <= i < msgs.drop_first().len() - 1 ==> msgs.drop_first()[i] == msgs[i + 1]);
        }
        lemma_drain_lifecycle(sp.0, sp.1, msgs.drop_first(), now_ms);
        let fin = spec_apply_msgs(s, p, msgs, now_ms).0;
        assert(fin.artifacts =~= s.artifacts + found_records(msgs));
    }
}

/// Law: a whole scan of a well-formed tree, drained from a fresh start,
/// ends with searching off, the emitted records appended in emission order,
/// and the total-size display equal to the binary-prefix formatting of the
/// sum of the emitted sizes — provided that sum fits the byte counter.
pub proof fn lemma_scan_end_state(
    s: AppStateModel,
    path: Seq<char>,
    node: FsNode,
    now_ms: u64,
)
    requires
        wf_node(node),
        found_sizes_total(spec_walker(path, node)) <= u64::MAX,
    ensures
        ({
            let msgs = spec_walker(path, node);
            let fin = spec_apply_msgs(s, ScanProgress { total: 0, found_any: false }, msgs, now_ms).0;
            &&& fin.searching == false
            &&& fin.total_size == spec_format_bytes(found_sizes_total(msgs) as u64)
            &&& fin.artifacts == s.artifacts + found_records(msgs)
        }),
{
    let msgs = spec_walker(path, node);
    crate::walker::lemma_walker_done_last(path, node);
    lemma_found_sizes_nonneg(msgs);
    lemma_drain_lifecycle(s, ScanProgress { total: 0, found_any: false }, msgs, now_ms);
}

} // verus!
