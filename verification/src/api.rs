//! Requests and responses of the IR web API, their validation, and the
//! decisions of remote-pack import and export.

use vstd::prelude::*;

use crate::error::IrError;
use crate::json::{from_json_u32_array, parse_json_u32_array, to_json_u32_array, json_u32_array};
use crate::store::{IrButtonRecord, IrRemoteRecord};
use crate::text::{concat3, is_blank, owned, signed_decimal, str_eq, trim, trim_str, with_number};

verus! {

/// All remotes with their buttons.
pub struct IrRemotesResponse {
    pub remotes: Vec<IrRemoteRecord>,
}

/// A created remote.
pub struct IrCreateRemoteResponse {
    pub id: i64,
    pub name: String,
}

/// Create a remote.
pub struct IrCreateRemoteRequest {
    pub name: String,
}

/// Rename a remote.
pub struct IrRenameRemoteRequest {
    pub name: String,
}

/// Learn a new button on a remote.
pub struct IrLearnRequest {
    pub remote_id: i64,
    pub name: String,
}

/// Change a button's name and/or quick slot.
pub struct IrButtonUpdateRequest {
    pub name: Option<String>,
    /// `Some(None)` unbinds the button from its quick slot.
    pub slot: Option<Option<i64>>,
}

/// Counts of an import.
#[derive(Clone, Copy)]
pub struct IrImportResult {
    pub remotes_imported: u32,
    pub remotes_merged: u32,
    pub buttons_imported: u32,
    pub buttons_skipped: u32,
}

/// Shared remote pack: `{ format: "one-kvm-ir-pack", version: 1, remotes: [...] }`.
pub struct IrRemotePack {
    pub format: String,
    pub version: u32,
    pub remotes: Vec<IrPackRemote>,
}

/// A remote in a pack.
pub struct IrPackRemote {
    pub name: String,
    pub buttons: Vec<IrPackButton>,
}

/// A button in a pack.
pub struct IrPackButton {
    pub name: String,
    pub protocol: String,
    pub scancode: Option<i64>,
    pub raw: Option<Vec<u32>>,
    pub carrier: Option<i64>,
}

/// The pack format tag.
pub open spec fn pack_format() -> Seq<char> {
    "one-kvm-ir-pack"@
}

/// The learn request's button name (trimmed), refused when blank or when IR
/// is disabled, in that order.
pub fn learn_request_name(req: &IrLearnRequest, ir_enabled: bool) -> (r: Result<String, IrError>)
    ensures
        trim(req.name@).len() == 0 ==> (r matches Err(IrError::BadRequest(m)) && m@ == "button name must not be empty"@),
        trim(req.name@).len() > 0 && !ir_enabled ==> (r matches Err(IrError::BadRequest(m)) && m@ == "IR remote is disabled"@),
        trim(req.name@).len() > 0 && ir_enabled ==> (r matches Ok(n) && n@ == trim(req.name@)),
{
    if is_blank(req.name.as_str()) {
        return Err(IrError::BadRequest(owned("button name must not be empty")));
    }
    if !ir_enabled {
        return Err(IrError::BadRequest(owned("IR remote is disabled")));
    }
    Ok(owned(trim_str(req.name.as_str())))
}

/// Sending is refused while IR is disabled.
pub fn send_request_check(ir_enabled: bool) -> (r: Result<(), IrError>)
    ensures
        ir_enabled ==> r is Ok,
        !ir_enabled ==> (r matches Err(IrError::BadRequest(m)) && m@ == "IR remote is disabled"@),
{
    if !ir_enabled {
        return Err(IrError::BadRequest(owned("IR remote is disabled")));
    }
    Ok(())
}

/// A button update must change something and may not blank the name.
pub fn update_request_check(req: &IrButtonUpdateRequest) -> (r: Result<(), IrError>)
    ensures
        req.name is None && req.slot is None ==> (r matches Err(IrError::BadRequest(m)) && m@ == "nothing to update"@),
        (req.name matches Some(n) && trim(n@).len() == 0) ==> (r matches Err(IrError::BadRequest(m)) && m@
            == "button name must not be empty"@),
        !(req.name is None && req.slot is None) && !(req.name matches Some(n) && trim(n@).len() == 0) ==> r is Ok,
{
    if req.name.is_none() && req.slot.is_none() {
        return Err(IrError::BadRequest(owned("nothing to update")));
    }
    match &req.name {
        Some(n) => {
            if is_blank(n.as_str()) {
                return Err(IrError::BadRequest(owned("button name must not be empty")));
            }
        },
        None => {},
    }
    Ok(())
}

/// A pack is accepted only with the known format tag and version 1.
pub fn pack_header_check(pack: &IrRemotePack) -> (r: Result<(), IrError>)
    ensures
        pack.format@ != pack_format() ==> (r matches Err(IrError::BadRequest(m)) && m@ == "unsupported pack format '"@
            + pack.format@ + "' (expected 'one-kvm-ir-pack')"@),
        pack.format@ == pack_format() && pack.version != 1 ==> (r matches Err(IrError::BadRequest(m)) && m@
            == "unsupported pack version "@ + signed_decimal(pack.version as int)),
        pack.format@ == pack_format() && pack.version == 1 ==> r is Ok,
{
    if !str_eq(pack.format.as_str(), "one-kvm-ir-pack") {
        return Err(
            IrError::BadRequest(concat3("unsupported pack format '", pack.format.as_str(), "' (expected 'one-kvm-ir-pack')")),
        );
    }
    if pack.version != 1 {
        let m = with_number("unsupported pack version ", pack.version as i64, "");
        proof {
            reveal_strlit("");
        }
        assert(m@ =~= "unsupported pack version "@ + signed_decimal(pack.version as int));
        return Err(IrError::BadRequest(m));
    }
    Ok(())
}

/// A pack name that counts: not blank once trimmed.
pub open spec fn is_named(name: Seq<char>) -> bool {
    trim(name).len() > 0
}

/// Number of remotes in `rs` with a name.
pub open spec fn named_remotes(rs: Seq<IrPackRemote>) -> nat
    decreases rs.len(),
{
    if rs.len() == 0 {
        0
    } else {
        named_remotes(rs.drop_last()) + if is_named(rs.last().name@) { 1nat } else { 0nat }
    }
}

/// Number of buttons in `bs` with a name.
pub open spec fn named_buttons(bs: Seq<IrPackButton>) -> nat
    decreases bs.len(),
{
    if bs.len() == 0 {
        0
    } else {
        named_buttons(bs.drop_last()) + if is_named(bs.last().name@) { 1nat } else { 0nat }
    }
}

/// Number of named buttons of the named remotes in `rs`.
pub open spec fn pack_buttons(rs: Seq<IrPackRemote>) -> nat
    decreases rs.len(),
{
    if rs.len() == 0 {
        0
    } else {
        pack_buttons(rs.drop_last()) + if is_named(rs.last().name@) { named_buttons(rs.last().buttons@) } else { 0nat }
    }
}

/// First index at or after `from` of a named remote, or `rs.len()`.
pub open spec fn next_named_remote(rs: Seq<IrPackRemote>, from: int) -> int
    decreases rs.len() - from,
{
    if from < 0 || from >= rs.len() {
        rs.len() as int
    } else if is_named(rs[from].name@) {
        from
    } else {
        next_named_remote(rs, from + 1)
    }
}

/// First index at or after `from` of a named button, or `bs.len()`.
pub open spec fn next_named_button(bs: Seq<IrPackButton>, from: int) -> int
    decreases bs.len() - from,
{
    if from < 0 || from >= bs.len() {
        bs.len() as int
    } else if is_named(bs[from].name@) {
        from
    } else {
        next_named_button(bs, from + 1)
    }
}

/// Default carrier of an imported button (Hz).
pub const DEFAULT_CARRIER: i64 = 38000;

/// A button row to write.
pub struct ButtonInsert {
    pub remote_id: i64,
    pub name: String,
    pub proto: String,
    pub scancode: Option<i64>,
    /// The raw pulse train as JSON text.
    pub raw: Option<String>,
    pub carrier: i64,
}

/// The row imported for pack button `b` of remote `remote_id`: trimmed
/// name and protocol, the raw train as JSON, carrier defaulting to 38 kHz.
pub open spec fn is_insert_of(ins: ButtonInsert, remote_id: i64, b: IrPackButton) -> bool {
    &&& ins.remote_id == remote_id
    &&& ins.name@ == trim(b.name@)
    &&& ins.proto@ == trim(b.protocol@)
    &&& ins.scancode == b.scancode
    &&& match b.raw {
        Some(v) => ins.raw matches Some(t) && t@ == json_u32_array(v@) && parse_json_u32_array(t@) == Some(v@),
        None => ins.raw is None,
    }
    &&& ins.carrier == match b.carrier {
        Some(c) => c,
        None => DEFAULT_CARRIER,
    }
}

/// The row to write for a pack button.
pub fn button_insert(remote_id: i64, b: &IrPackButton) -> (r: ButtonInsert)
    ensures
        is_insert_of(r, remote_id, *b),
{
    let raw: Option<String> = match &b.raw {
        Some(v) => Some(to_json_u32_array(v)),
        None => None,
    };
    ButtonInsert {
        remote_id,
        name: owned(trim_str(b.name.as_str())),
        proto: owned(trim_str(b.protocol.as_str())),
        scancode: b.scancode,
        raw,
        carrier: match b.carrier {
            Some(c) => c,
            None => DEFAULT_CARRIER,
        },
    }
}

/// The next database step of an import.
pub enum ImportAction {
    /// Look up a remote by this name; answer with `on_lookup`.
    LookupRemote(String),
    /// Create a remote with this name; answer with `on_created`.
    CreateRemote(String),
    /// Ask whether the remote has a button of this name; answer with
    /// `on_exists`.
    CheckButton { remote_id: i64, name: String },
    /// Write this button; answer with `on_inserted`.
    InsertButton(ButtonInsert),
    /// The import is complete.
    Done(IrImportResult),
}

/// Where an import stands.
pub enum ImportPhase {
    Start,
    AwaitLookup,
    AwaitCreate,
    AwaitCheck,
    AwaitInsert,
    Finished,
}

/// An import of a pack's remotes: remotes are matched by trimmed name
/// (merged into an existing one, else created), buttons with a name that
/// already exists on the remote are skipped, blank names are ignored.
pub struct PackImport {
    remotes: Vec<IrPackRemote>,
    ri: usize,
    bi: usize,
    remote_id: i64,
    phase: ImportPhase,
    tally: IrImportResult,
    log: Ghost<ImportLog>,
}

/// What an import has learned of the code library and written to it, by
/// trimmed names.
pub struct ImportLog {
    /// `(id, name)` of the remotes a lookup found.
    pub found: Set<(i64, Seq<char>)>,
    /// `(id, name)` of the remotes the import created.
    pub created: Set<(i64, Seq<char>)>,
    /// `(remote id, name)` of the buttons a check found or the import wrote.
    pub buttons: Set<(i64, Seq<char>)>,
    /// Names whose lookup found no remote.
    pub missing_remotes: Set<Seq<char>>,
    /// `(remote id, remote name, button name)` of the checks that found no
    /// button.
    pub missing_buttons: Set<(i64, Seq<char>, Seq<char>)>,
}

/// A log with nothing in it.
pub open spec fn empty_log() -> ImportLog {
    ImportLog {
        found: Set::empty(),
        created: Set::empty(),
        buttons: Set::empty(),
        missing_remotes: Set::empty(),
        missing_buttons: Set::empty(),
    }
}

/// The remote rows an import has seen: found or created.
pub open spec fn seen_remotes(l: ImportLog) -> Set<(i64, Seq<char>)> {
    l.found.union(l.created)
}

/// The named buttons among the first `k` of `bs` are seen on remote `id`.
pub open spec fn buttons_seen(l: ImportLog, id: i64, bs: Seq<IrPackButton>, k: int) -> bool {
    forall|j: int| 0 <= j < k && is_named(#[trigger] bs[j].name@) ==> l.buttons.contains((id, trim(bs[j].name@)))
}

/// A named pack remote is seen: some remote row of its name, with all its
/// named buttons on that row.
pub open spec fn remote_seen(l: ImportLog, r: IrPackRemote) -> bool {
    is_named(r.name@) ==> exists|id: i64| #[trigger]
        seen_remotes(l).contains((id, trim(r.name@))) && buttons_seen(l, id, r.buttons@, r.buttons@.len() as int)
}

/// The first `n` pack remotes are seen.
pub open spec fn remotes_seen(l: ImportLog, rs: Seq<IrPackRemote>, n: int) -> bool {
    forall|i: int| 0 <= i < n ==> remote_seen(l, #[trigger] rs[i])
}

/// `n` is the trimmed name of a named remote of the pack.
pub open spec fn pack_has_remote(rs: Seq<IrPackRemote>, n: Seq<char>) -> bool {
    exists|i: int| 0 <= i < rs.len() && is_named(#[trigger] rs[i].name@) && trim(rs[i].name@) == n
}

/// `bn` is the trimmed name of a named button of a named pack remote
/// called `n`.
pub open spec fn pack_has_button(rs: Seq<IrPackRemote>, n: Seq<char>, bn: Seq<char>) -> bool {
    exists|i: int, k: int|
        0 <= i < rs.len() && 0 <= k < rs[i].buttons@.len() && is_named(#[trigger] rs[i].name@) && trim(rs[i].name@) == n
            && is_named(#[trigger] rs[i].buttons@[k].name@) && trim(rs[i].buttons@[k].name@) == bn
}

/// What the log records was asked about the pack: every missing remote
/// is a pack remote, and every missing button is a pack button, asked on
/// a remote found under its name or created after a failed lookup.
pub open spec fn log_sound(l: ImportLog, rs: Seq<IrPackRemote>) -> bool {
    &&& forall|n: Seq<char>| #[trigger] l.missing_remotes.contains(n) ==> pack_has_remote(rs, n)
    &&& forall|rid: i64, n: Seq<char>, bn: Seq<char>| #[trigger] l.missing_buttons.contains((rid, n, bn))
        ==> pack_has_button(rs, n, bn) && (l.found.contains((rid, n)) || l.missing_remotes.contains(n))
}

/// Anything imported followed a failed lookup or check.
pub open spec fn log_counts(l: ImportLog, t: IrImportResult) -> bool {
    &&& t.remotes_imported > 0 ==> l.missing_remotes != Set::<Seq<char>>::empty()
    &&& t.buttons_imported > 0 ==> l.missing_buttons != Set::<(i64, Seq<char>, Seq<char>)>::empty()
}

/// Every set of `l` lies in the same set of `l2`.
pub open spec fn log_grows(l: ImportLog, l2: ImportLog) -> bool {
    &&& l.found.subset_of(l2.found)
    &&& l.created.subset_of(l2.created)
    &&& l.buttons.subset_of(l2.buttons)
    &&& l.missing_remotes.subset_of(l2.missing_remotes)
    &&& l.missing_buttons.subset_of(l2.missing_buttons)
}

/// The code library as rows: `(id, name)` of each remote and
/// `(remote id, name)` of each button.
pub struct LibraryRows {
    pub remotes: Set<(i64, Seq<char>)>,
    pub buttons: Set<(i64, Seq<char>)>,
}

/// No two remote rows share a name (the table's unique name).
pub open spec fn names_unique(db: LibraryRows) -> bool {
    forall|a: (i64, Seq<char>), b: (i64, Seq<char>)|
        #[trigger] db.remotes.contains(a) && #[trigger] db.remotes.contains(b) && a.1 == b.1 ==> a.0 == b.0
}

/// The library holds every row the import found, created, or wrote.
pub open spec fn holds_log(db: LibraryRows, l: ImportLog) -> bool {
    &&& seen_remotes(l).subset_of(db.remotes)
    &&& l.buttons.subset_of(db.buttons)
}

/// Every answer the import got is what the library gives: found remotes
/// are rows of it, a remote not found has no row of its name, a button not
/// found has no row.
pub open spec fn answers_from(db: LibraryRows, l: ImportLog) -> bool {
    &&& l.found.subset_of(db.remotes)
    &&& forall|n: Seq<char>, id: i64| l.missing_remotes.contains(n) ==> !#[trigger] db.remotes.contains((id, n))
    &&& forall|rid: i64, n: Seq<char>, bn: Seq<char>| #[trigger] l.missing_buttons.contains((rid, n, bn))
        ==> !db.buttons.contains((rid, bn))
}

/// No remote or button counted yet.
pub open spec fn zero_tally(t: IrImportResult) -> bool {
    t.remotes_imported == 0 && t.remotes_merged == 0 && t.buttons_imported == 0 && t.buttons_skipped == 0
}

/// Remotes counted so far.
pub open spec fn remotes_done(t: IrImportResult) -> int {
    t.remotes_imported + t.remotes_merged
}

/// Buttons counted so far.
pub open spec fn buttons_done(t: IrImportResult) -> int {
    t.buttons_imported + t.buttons_skipped
}

/// The tally with one more remote merged.
pub open spec fn plus_merged(t: IrImportResult) -> IrImportResult {
    IrImportResult { remotes_merged: (t.remotes_merged + 1) as u32, ..t }
}

/// The tally with one more remote imported.
pub open spec fn plus_imported(t: IrImportResult) -> IrImportResult {
    IrImportResult { remotes_imported: (t.remotes_imported + 1) as u32, ..t }
}

/// The tally with one more button skipped.
pub open spec fn plus_skipped(t: IrImportResult) -> IrImportResult {
    IrImportResult { buttons_skipped: (t.buttons_skipped + 1) as u32, ..t }
}

/// The tally with one more button written.
pub open spec fn plus_written(t: IrImportResult) -> IrImportResult {
    IrImportResult { buttons_imported: (t.buttons_imported + 1) as u32, ..t }
}

/// A finished import's counts cover exactly the named remotes and their
/// named buttons.
pub open spec fn complete_tally(t: IrImportResult, rs: Seq<IrPackRemote>) -> bool {
    &&& t.remotes_imported + t.remotes_merged == named_remotes(rs)
    &&& t.buttons_imported + t.buttons_skipped == pack_buttons(rs)
}

impl PackImport {
    /// The pack's remotes.
    pub closed spec fn remotes(&self) -> Seq<IrPackRemote> {
        self.remotes@
    }

    /// Index of the current remote.
    pub closed spec fn remote_index(&self) -> int {
        self.ri as int
    }

    /// Index of the current button.
    pub closed spec fn button_index(&self) -> int {
        self.bi as int
    }

    /// The stored id of the current remote.
    pub closed spec fn current_remote_id(&self) -> i64 {
        self.remote_id
    }

    /// Where the import stands.
    pub closed spec fn phase(&self) -> ImportPhase {
        self.phase
    }

    /// The counts so far.
    pub closed spec fn tally(&self) -> IrImportResult {
        self.tally
    }

    /// Every lookup so far found its remote and every check found its
    /// button: nothing has been created or written.
    pub closed spec fn only_existing(&self) -> bool {
        &&& self.log@.missing_remotes == Set::<Seq<char>>::empty()
        &&& self.log@.missing_buttons == Set::<(i64, Seq<char>, Seq<char>)>::empty()
    }

    /// What the import has learned and written so far.
    pub closed spec fn log(&self) -> ImportLog {
        self.log@
    }

    /// The log's invariant at the current phase.
    pub closed spec fn log_ok(&self) -> bool {
        let rs = self.remotes@;
        let l = self.log@;
        &&& log_sound(l, rs)
        &&& log_counts(l, self.tally)
        &&& match self.phase {
            ImportPhase::Start => true,
            ImportPhase::AwaitLookup => remotes_seen(l, rs, self.ri as int),
            ImportPhase::AwaitCreate => {
                &&& remotes_seen(l, rs, self.ri as int)
                &&& self.ri < rs.len()
                &&& l.missing_remotes.contains(trim(rs[self.ri as int].name@))
            },
            ImportPhase::AwaitCheck => {
                &&& remotes_seen(l, rs, self.ri as int)
                &&& self.ri < rs.len()
                &&& current_seen(l, rs[self.ri as int], self.bi as int, self.remote_id)
            },
            ImportPhase::AwaitInsert => {
                &&& remotes_seen(l, rs, self.ri as int)
                &&& self.ri < rs.len()
                &&& current_seen(l, rs[self.ri as int], self.bi as int, self.remote_id)
                &&& self.bi < rs[self.ri as int].buttons@.len()
                &&& l.missing_buttons.contains(
                    (self.remote_id, trim(rs[self.ri as int].name@), trim(rs[self.ri as int].buttons@[self.bi as int].name@)),
                )
            },
            ImportPhase::Finished => remotes_seen(l, rs, rs.len() as int),
        }
    }

    /// The import's bookkeeping is consistent.
    pub closed spec fn wf(&self) -> bool {
        let rs = self.remotes@;
        let t = self.tally;
        &&& self.log_ok()
        &&& named_remotes(rs) <= u32::MAX
        &&& pack_buttons(rs) <= u32::MAX
        &&& self.ri <= rs.len()
        &&& match self.phase {
            ImportPhase::Start => self.ri == 0 && zero_tally(t),
            ImportPhase::AwaitLookup => {
                &&& self.ri < rs.len()
                &&& is_named(rs[self.ri as int].name@)
                &&& remotes_done(t) == named_remotes(rs.take(self.ri as int))
                &&& buttons_done(t) == pack_buttons(rs.take(self.ri as int))
            },
            ImportPhase::AwaitCreate => {
                &&& self.ri < rs.len()
                &&& is_named(rs[self.ri as int].name@)
                &&& remotes_done(t) == named_remotes(rs.take(self.ri as int)) + 1
                &&& buttons_done(t) == pack_buttons(rs.take(self.ri as int))
            },
            ImportPhase::AwaitCheck | ImportPhase::AwaitInsert => {
                &&& self.ri < rs.len()
                &&& is_named(rs[self.ri as int].name@)
                &&& self.bi < rs[self.ri as int].buttons@.len()
                &&& is_named(rs[self.ri as int].buttons@[self.bi as int].name@)
                &&& remotes_done(t) == named_remotes(rs.take(self.ri + 1))
                &&& buttons_done(t) == pack_buttons(rs.take(self.ri as int)) + named_buttons(
                    rs[self.ri as int].buttons@.take(self.bi as int),
                )
            },
            ImportPhase::Finished => self.ri == rs.len() && complete_tally(t, rs),
        }
    }
}

/// The current remote (`rid`) is seen under its name, was found by a
/// lookup or follows a failed one, and its named buttons before `k` are
/// seen on it.
pub open spec fn current_seen(l: ImportLog, r: IrPackRemote, k: int, rid: i64) -> bool {
    &&& seen_remotes(l).contains((rid, trim(r.name@)))
    &&& (l.found.contains((rid, trim(r.name@))) || l.missing_remotes.contains(trim(r.name@)))
    &&& buttons_seen(l, rid, r.buttons@, k)
}

/// The state and action after looking for the next named remote from
/// `from`: done with the counts when there is none, else a lookup of its
/// trimmed name.
pub open spec fn after_seek_remote(s: PackImport, from: int, t: IrImportResult, action: ImportAction) -> bool {
    let rs = s.remotes();
    let k = next_named_remote(rs, from);
    &&& s.tally() == t
    &&& if k >= rs.len() {
        &&& s.phase() is Finished
        &&& action matches ImportAction::Done(d) && d == t && complete_tally(d, rs)
    } else {
        &&& s.phase() is AwaitLookup
        &&& s.remote_index() == k
        &&& action matches ImportAction::LookupRemote(n) && n@ == trim(rs[k].name@)
    }
}

/// The state and action after looking for the next named button of remote
/// `ri` from `from`: a check of its trimmed name on `remote_id`, else on
/// to the next remote.
pub open spec fn after_seek_button(s: PackImport, ri: int, from: int, remote_id: i64, t: IrImportResult, action: ImportAction) -> bool {
    let rs = s.remotes();
    let bs = rs[ri].buttons@;
    let k = next_named_button(bs, from);
    if k >= bs.len() {
        after_seek_remote(s, ri + 1, t, action)
    } else {
        &&& s.tally() == t
        &&& s.phase() is AwaitCheck
        &&& s.remote_index() == ri
        &&& s.button_index() == k
        &&& s.current_remote_id() == remote_id
        &&& action matches ImportAction::CheckButton { remote_id: id, name } && id == remote_id && name@ == trim(bs[k].name@)
    }
}

proof fn lemma_named_remotes_step(rs: Seq<IrPackRemote>, k: int)
    requires
        0 <= k < rs.len(),
    ensures
        named_remotes(rs.take(k + 1)) == named_remotes(rs.take(k)) + if is_named(rs[k].name@) { 1nat } else { 0nat },
        pack_buttons(rs.take(k + 1)) == pack_buttons(rs.take(k)) + if is_named(rs[k].name@) {
            named_buttons(rs[k].buttons@)
        } else {
            0nat
        },
{
    assert(rs.take(k + 1).drop_last() =~= rs.take(k));
}

proof fn lemma_named_buttons_step(bs: Seq<IrPackButton>, k: int)
    requires
        0 <= k < bs.len(),
    ensures
        named_buttons(bs.take(k + 1)) == named_buttons(bs.take(k)) + if is_named(bs[k].name@) { 1nat } else { 0nat },
{
    assert(bs.take(k + 1).drop_last() =~= bs.take(k));
}

proof fn lemma_named_remotes_prefix(rs: Seq<IrPackRemote>, k: int)
    requires
        0 <= k <= rs.len(),
    ensures
        named_remotes(rs.take(k)) <= named_remotes(rs),
        pack_buttons(rs.take(k)) <= pack_buttons(rs),
    decreases rs.len() - k,
{
    if k < rs.len() {
        lemma_named_remotes_step(rs, k);
        lemma_named_remotes_prefix(rs, k + 1);
    } else {
        assert(rs.take(k) =~= rs);
    }
}

proof fn lemma_next_named_remote_bounds(rs: Seq<IrPackRemote>, from: int)
    requires
        0 <= from <= rs.len(),
    ensures
        from <= next_named_remote(rs, from) <= rs.len(),
    decreases rs.len() - from,
{
    if from < rs.len() && !is_named(rs[from].name@) {
        lemma_next_named_remote_bounds(rs, from + 1);
    }
}

/// Whether an import of `remotes` can count its remotes and buttons in
/// `u32`: the named remotes, and the named buttons of named remotes, each
/// number at most `u32::MAX`.
pub fn pack_counts_fit(remotes: &Vec<IrPackRemote>) -> (r: bool)
    ensures
        r == (named_remotes(remotes@) <= u32::MAX && pack_buttons(remotes@) <= u32::MAX),
{
    let ghost rs = remotes@;
    let mut nr: u64 = 0;
    let mut nb: u64 = 0;
    let mut i: usize = 0;
    while i < remotes.len()
        invariant
            rs == remotes@,
            i <= rs.len(),
            nr == named_remotes(rs.take(i as int)),
            nb == pack_buttons(rs.take(i as int)),
            nr <= u32::MAX,
            nb <= u32::MAX,
        decreases rs.len() - i,
    {
        proof {
            lemma_named_remotes_step(rs, i as int);
        }
        let r = &remotes[i];
        if !is_blank(r.name.as_str()) {
            let bs = &r.buttons;
            let mut cnt: u64 = 0;
            let mut k: usize = 0;
            while k < bs.len()
                invariant
                    k <= bs@.len(),
                    cnt == named_buttons(bs@.take(k as int)),
                    cnt <= k,
                decreases bs@.len() - k,
            {
                proof {
                    lemma_named_buttons_step(bs@, k as int);
                }
                if !is_blank(bs[k].name.as_str()) {
                    cnt = cnt + 1;
                }
                k = k + 1;
            }
            assert(bs@.take(bs@.len() as int) =~= bs@);
            if nr >= 0xffff_ffff || cnt > 0xffff_ffff - nb {
                proof {
                    lemma_named_remotes_prefix(rs, i + 1);
                }
                return false;
            }
            nr = nr + 1;
            nb = nb + cnt;
        }
        i = i + 1;
    }
    assert(rs.take(rs.len() as int) =~= rs);
    true
}

impl PackImport {
    /// An import of `remotes`, not started. The counts of a pack must fit
    /// in `u32` (beyond that the counting overflows).
    pub fn new(remotes: Vec<IrPackRemote>) -> (s: Self)
        requires
            named_remotes(remotes@) <= u32::MAX,
            pack_buttons(remotes@) <= u32::MAX,
        ensures
            s.wf(),
            s.remotes() == remotes@,
            s.phase() is Start,
            zero_tally(s.tally()),
            s.only_existing(),
    {
        PackImport {
            remotes,
            ri: 0,
            bi: 0,
            remote_id: 0,
            phase: ImportPhase::Start,
            tally: IrImportResult { remotes_imported: 0, remotes_merged: 0, buttons_imported: 0, buttons_skipped: 0 },
            log: Ghost(empty_log()),
        }
    }

    /// An import of `remotes`, not started, or an error when the pack has
    /// more remotes or buttons than the `u32` counts can hold.
    pub fn try_new(remotes: Vec<IrPackRemote>) -> (r: Result<Self, IrError>)
        ensures
            r is Ok <==> (named_remotes(remotes@) <= u32::MAX && pack_buttons(remotes@) <= u32::MAX),
            r matches Ok(s) ==> {
                &&& s.wf()
                &&& s.remotes() == remotes@
                &&& s.phase() is Start
                &&& zero_tally(s.tally())
                &&& s.only_existing()
            },
            r matches Err(e) ==> (e matches IrError::BadRequest(m) && m@ == "remote pack too large"@),
    {
        if pack_counts_fit(&remotes) {
            Ok(Self::new(remotes))
        } else {
            Err(IrError::BadRequest(owned("remote pack too large")))
        }
    }

    fn seek_remote(&mut self, from: usize) -> (action: ImportAction)
        requires
            named_remotes(old(self).remotes@) <= u32::MAX,
            pack_buttons(old(self).remotes@) <= u32::MAX,
            from <= old(self).remotes@.len(),
            remotes_done(old(self).tally) == named_remotes(old(self).remotes@.take(from as int)),
            buttons_done(old(self).tally) == pack_buttons(old(self).remotes@.take(from as int)),
            log_sound(old(self).log@, old(self).remotes@),
            log_counts(old(self).log@, old(self).tally),
            remotes_seen(old(self).log@, old(self).remotes@, from as int),
        ensures
            final(self).wf(),
            final(self).remotes@ == old(self).remotes@,
            final(self).log == old(self).log,
            after_seek_remote(*final(self), from as int, old(self).tally, action),
    {
        let ghost rs = self.remotes@;
        let ghost l = self.log@;
        let mut k: usize = from;
        while k < self.remotes.len() && is_blank(self.remotes[k].name.as_str())
            invariant
                rs == self.remotes@,
                l == self.log@,
                remotes_seen(l, rs, k as int),
                from <= k <= rs.len(),
                next_named_remote(rs, from as int) == next_named_remote(rs, k as int),
                named_remotes(rs.take(k as int)) == named_remotes(rs.take(from as int)),
                pack_buttons(rs.take(k as int)) == pack_buttons(rs.take(from as int)),
            decreases rs.len() - k,
        {
            proof {
                lemma_named_remotes_step(rs, k as int);
            }
            k = k + 1;
        }
        if k >= self.remotes.len() {
            assert(rs.take(k as int) =~= rs);
            self.phase = ImportPhase::Finished;
            self.ri = k;
            return ImportAction::Done(self.tally);
        }
        self.ri = k;
        self.bi = 0;
        self.phase = ImportPhase::AwaitLookup;
        ImportAction::LookupRemote(owned(trim_str(self.remotes[k].name.as_str())))
    }

    fn seek_button(&mut self, from: usize) -> (action: ImportAction)
        requires
            named_remotes(old(self).remotes@) <= u32::MAX,
            pack_buttons(old(self).remotes@) <= u32::MAX,
            old(self).ri < old(self).remotes@.len(),
            is_named(old(self).remotes@[old(self).ri as int].name@),
            from <= old(self).remotes@[old(self).ri as int].buttons@.len(),
            remotes_done(old(self).tally) == named_remotes(old(self).remotes@.take(old(self).ri + 1)),
            buttons_done(old(self).tally) == pack_buttons(old(self).remotes@.take(old(self).ri as int)) + named_buttons(
                old(self).remotes@[old(self).ri as int].buttons@.take(from as int),
            ),
            log_sound(old(self).log@, old(self).remotes@),
            log_counts(old(self).log@, old(self).tally),
            remotes_seen(old(self).log@, old(self).remotes@, old(self).ri as int),
            current_seen(old(self).log@, old(self).remotes@[old(self).ri as int], from as int, old(self).remote_id),
        ensures
            final(self).wf(),
            final(self).remotes@ == old(self).remotes@,
            final(self).log == old(self).log,
            after_seek_button(*final(self), old(self).ri as int, from as int, old(self).remote_id, old(self).tally, action),
    {
        let ghost rs = self.remotes@;
        let ri: usize = self.ri;
        let ghost bs = rs[ri as int].buttons@;
        let ghost l = self.log@;
        let n: usize = self.remotes[ri].buttons.len();
        let mut k: usize = from;
        while k < n && is_blank(self.remotes[ri].buttons[k].name.as_str())
            invariant
                rs == self.remotes@,
                l == self.log@,
                current_seen(l, rs[ri as int], k as int, self.remote_id),
                ri < rs.len(),
                bs == rs[ri as int].buttons@,
                n == bs.len(),
                from <= k <= n,
                next_named_button(bs, from as int) == next_named_button(bs, k as int),
                named_buttons(bs.take(k as int)) == named_buttons(bs.take(from as int)),
            decreases n - k,
        {
            proof {
                lemma_named_buttons_step(bs, k as int);
            }
            k = k + 1;
        }
        if k >= n {
            proof {
                assert(bs.take(k as int) =~= bs);
                lemma_named_remotes_step(rs, ri as int);
                assert(remote_seen(l, rs[ri as int]));
                assert forall|i: int| 0 <= i < ri + 1 implies remote_seen(l, #[trigger] rs[i]) by {
                    if i < ri {
                        assert(remote_seen(l, rs[i]));
                    }
                }
            }
            let rl: usize = self.remotes.len();
            assert(ri < rl);
            return self.seek_remote(ri + 1);
        }
        self.bi = k;
        self.phase = ImportPhase::AwaitCheck;
        ImportAction::CheckButton {
            remote_id: self.remote_id,
            name: owned(trim_str(self.remotes[ri].buttons[k].name.as_str())),
        }
    }

    /// Begin: look up the first named remote, or finish at once.
    pub fn start(&mut self) -> (action: ImportAction)
        requires
            old(self).wf(),
            old(self).phase() is Start,
        ensures
            final(self).wf(),
            final(self).remotes() == old(self).remotes(),
            final(self).only_existing() == old(self).only_existing(),
            final(self).only_existing() ==> !(action is CreateRemote) && !(action is InsertButton),
            after_seek_remote(*final(self), 0, old(self).tally(), action),
    {
        assert(self.remotes@.take(0) =~= Seq::<IrPackRemote>::empty());
        self.seek_remote(0)
    }

    /// The lookup's answer: an existing remote is merged into, otherwise
    /// the remote is created.
    pub fn on_lookup(&mut self, found: Option<i64>) -> (action: ImportAction)
        requires
            old(self).wf(),
            old(self).phase() is AwaitLookup,
        ensures
            final(self).wf(),
            final(self).remotes() == old(self).remotes(),
            final(self).only_existing() == (old(self).only_existing() && found is Some),
            final(self).only_existing() ==> !(action is CreateRemote) && !(action is InsertButton),
            match found {
                Some(id) => after_seek_button(*final(self), old(self).remote_index(), 0, id, plus_merged(old(self).tally()), action),
                None => {
                    &&& final(self).phase() is AwaitCreate
                    &&& final(self).remote_index() == old(self).remote_index()
                    &&& final(self).tally() == plus_imported(old(self).tally())
                    &&& action matches ImportAction::CreateRemote(n) && n@ == trim(
                        old(self).remotes()[old(self).remote_index()].name@,
                    )
                },
            },
    {
        proof {
            lemma_named_remotes_step(self.remotes@, self.ri as int);
            lemma_named_remotes_prefix(self.remotes@, self.ri + 1);
        }
        let ri: usize = self.ri;
        match found {
            Some(id) => {
                let ghost l0 = self.log@;
                let ghost n = trim(self.remotes@[ri as int].name@);
                self.log = Ghost(ImportLog { found: l0.found.insert((id, n)), ..l0 });
                proof {
                    lemma_seen_grows(l0, self.log@, self.remotes@, ri as int);
                    assert(log_sound(self.log@, self.remotes@));
                }
                self.tally.remotes_merged = self.tally.remotes_merged + 1;
                self.remote_id = id;
                assert(self.remotes@[ri as int].buttons@.take(0) =~= Seq::<IrPackButton>::empty());
                self.seek_button(0)
            },
            None => {
                let ghost l0 = self.log@;
                let ghost n = trim(self.remotes@[ri as int].name@);
                self.log = Ghost(ImportLog { missing_remotes: l0.missing_remotes.insert(n), ..l0 });
                proof {
                    lemma_seen_grows(l0, self.log@, self.remotes@, ri as int);
                    assert(self.log@.missing_remotes.contains(n));
                    assert(pack_has_remote(self.remotes@, n));
                    assert(log_sound(self.log@, self.remotes@));
                }
                self.tally.remotes_imported = self.tally.remotes_imported + 1;
                self.phase = ImportPhase::AwaitCreate;
                ImportAction::CreateRemote(owned(trim_str(self.remotes[ri].name.as_str())))
            },
        }
    }

    /// The created remote's id; its buttons follow.
    pub fn on_created(&mut self, id: i64) -> (action: ImportAction)
        requires
            old(self).wf(),
            old(self).phase() is AwaitCreate,
        ensures
            final(self).wf(),
            final(self).remotes() == old(self).remotes(),
            final(self).only_existing() == old(self).only_existing(),
            final(self).only_existing() ==> !(action is CreateRemote) && !(action is InsertButton),
            after_seek_button(*final(self), old(self).remote_index(), 0, id, old(self).tally(), action),
    {
        proof {
            lemma_named_remotes_step(self.remotes@, self.ri as int);
        }
        let ri: usize = self.ri;
        let ghost l0 = self.log@;
        let ghost n = trim(self.remotes@[ri as int].name@);
        self.log = Ghost(ImportLog { created: l0.created.insert((id, n)), ..l0 });
        proof {
            lemma_seen_grows(l0, self.log@, self.remotes@, ri as int);
            assert(log_sound(self.log@, self.remotes@));
        }
        self.remote_id = id;
        assert(self.remotes@[ri as int].buttons@.take(0) =~= Seq::<IrPackButton>::empty());
        self.seek_button(0)
    }

    /// Whether the remote already has the button: skip it, or write it.
    pub fn on_exists(&mut self, exists: bool) -> (action: ImportAction)
        requires
            old(self).wf(),
            old(self).phase() is AwaitCheck,
        ensures
            final(self).wf(),
            final(self).remotes() == old(self).remotes(),
            final(self).only_existing() == (old(self).only_existing() && exists),
            final(self).only_existing() ==> !(action is CreateRemote) && !(action is InsertButton),
            exists ==> after_seek_button(*final(self), old(self).remote_index(), old(self).button_index() + 1,
                old(self).current_remote_id(), plus_skipped(old(self).tally()), action),
            !exists ==> {
                &&& final(self).phase() is AwaitInsert
                &&& final(self).tally() == old(self).tally()
                &&& action matches ImportAction::InsertButton(ins) && is_insert_of(ins, old(self).current_remote_id(),
                    old(self).remotes()[old(self).remote_index()].buttons@[old(self).button_index()])
            },
    {
        let ri: usize = self.ri;
        let bi: usize = self.bi;
        proof {
            lemma_named_buttons_step(self.remotes@[ri as int].buttons@, bi as int);
            lemma_named_remotes_step(self.remotes@, ri as int);
            lemma_named_remotes_prefix(self.remotes@, ri + 1);
            lemma_buttons_prefix(self.remotes@, ri as int, bi + 1);
        }
        let bl: usize = self.remotes[ri].buttons.len();
        assert(bi < bl);
        let ghost l0 = self.log@;
        let ghost rn = trim(self.remotes@[ri as int].name@);
        let ghost bn = trim(self.remotes@[ri as int].buttons@[bi as int].name@);
        if exists {
            self.log = Ghost(ImportLog { buttons: l0.buttons.insert((self.remote_id, bn)), ..l0 });
            proof {
                lemma_seen_grows(l0, self.log@, self.remotes@, ri as int);
                assert(log_sound(self.log@, self.remotes@));
            }
            self.tally.buttons_skipped = self.tally.buttons_skipped + 1;
            self.seek_button(bi + 1)
        } else {
            self.log = Ghost(ImportLog { missing_buttons: l0.missing_buttons.insert((self.remote_id, rn, bn)), ..l0 });
            proof {
                lemma_seen_grows(l0, self.log@, self.remotes@, ri as int);
                assert(self.log@.missing_buttons.contains((self.remote_id, rn, bn)));
                assert(pack_has_button(self.remotes@, rn, bn));
                assert(log_sound(self.log@, self.remotes@));
            }
            self.phase = ImportPhase::AwaitInsert;
            ImportAction::InsertButton(button_insert(self.remote_id, &self.remotes[ri].buttons[bi]))
        }
    }

    /// The button was written; on to the next.
    pub fn on_inserted(&mut self) -> (action: ImportAction)
        requires
            old(self).wf(),
            old(self).phase() is AwaitInsert,
        ensures
            final(self).wf(),
            final(self).remotes() == old(self).remotes(),
            final(self).only_existing() == old(self).only_existing(),
            final(self).only_existing() ==> !(action is CreateRemote) && !(action is InsertButton),
            after_seek_button(*final(self), old(self).remote_index(), old(self).button_index() + 1,
                old(self).current_remote_id(), plus_written(old(self).tally()), action),
    {
        let ri: usize = self.ri;
        let bi: usize = self.bi;
        proof {
            lemma_named_buttons_step(self.remotes@[ri as int].buttons@, bi as int);
            lemma_named_remotes_step(self.remotes@, ri as int);
            lemma_named_remotes_prefix(self.remotes@, ri + 1);
            lemma_buttons_prefix(self.remotes@, ri as int, bi + 1);
        }
        let bl: usize = self.remotes[ri].buttons.len();
        assert(bi < bl);
        let ghost l0 = self.log@;
        let ghost bn = trim(self.remotes@[ri as int].buttons@[bi as int].name@);
        self.log = Ghost(ImportLog { buttons: l0.buttons.insert((self.remote_id, bn)), ..l0 });
        proof {
            lemma_seen_grows(l0, self.log@, self.remotes@, ri as int);
            assert(log_sound(self.log@, self.remotes@));
        }
        self.tally.buttons_imported = self.tally.buttons_imported + 1;
        self.seek_button(bi + 1)
    }
}

/// A growing log keeps every remote it had seen, and the current
/// remote's buttons.
proof fn lemma_seen_grows(l: ImportLog, l2: ImportLog, rs: Seq<IrPackRemote>, n: int)
    requires
        log_grows(l, l2),
    ensures
        remotes_seen(l, rs, n) ==> remotes_seen(l2, rs, n),
        forall|r: IrPackRemote, k: int, rid: i64| #[trigger] current_seen(l, r, k, rid) ==> current_seen(l2, r, k, rid),
{
    if remotes_seen(l, rs, n) {
        assert forall|i: int| 0 <= i < n implies remote_seen(l2, #[trigger] rs[i]) by {
            assert(remote_seen(l, rs[i]));
            if is_named(rs[i].name@) {
                let id = choose|id: i64|
                    #[trigger] seen_remotes(l).contains((id, trim(rs[i].name@))) && buttons_seen(
                        l,
                        id,
                        rs[i].buttons@,
                        rs[i].buttons@.len() as int,
                    );
                assert(seen_remotes(l2).contains((id, trim(rs[i].name@))));
            }
        }
    }
}

/// Importing a pack again while the code library still holds every row the
/// first import of it found, created or wrote: when each answer of the
/// second run is what that library gives, the second run finds every
/// remote and every button, so it creates and writes nothing, merges
/// every remote the first run imported or merged, and skips every button
/// the first run imported or skipped.
pub proof fn lemma_reimport_imports_nothing(first: &PackImport, second: &PackImport, db: LibraryRows)
    requires
        first.wf(),
        first.phase() is Finished,
        second.wf(),
        second.phase() is Finished,
        second.remotes() == first.remotes(),
        names_unique(db),
        holds_log(db, first.log()),
        answers_from(db, second.log()),
    ensures
        second.only_existing(),
        second.tally().remotes_imported == 0,
        second.tally().buttons_imported == 0,
        second.tally().remotes_merged == first.tally().remotes_imported + first.tally().remotes_merged,
        second.tally().buttons_skipped == first.tally().buttons_imported + first.tally().buttons_skipped,
{
    let rs = first.remotes@;
    let l1 = first.log@;
    let l2 = second.log@;
    assert forall|n: Seq<char>| !l2.missing_remotes.contains(n) by {
        if l2.missing_remotes.contains(n) {
            assert(pack_has_remote(rs, n));
            let i = choose|i: int| 0 <= i < rs.len() && is_named(#[trigger] rs[i].name@) && trim(rs[i].name@) == n;
            assert(remote_seen(l1, rs[i]));
            let id = choose|id: i64|
                #[trigger] seen_remotes(l1).contains((id, trim(rs[i].name@))) && buttons_seen(
                    l1,
                    id,
                    rs[i].buttons@,
                    rs[i].buttons@.len() as int,
                );
            assert(db.remotes.contains((id, n)));
        }
    }
    assert(l2.missing_remotes =~= Set::<Seq<char>>::empty());
    assert forall|rid: i64, n: Seq<char>, bn: Seq<char>| !l2.missing_buttons.contains((rid, n, bn)) by {
        if l2.missing_buttons.contains((rid, n, bn)) {
            assert(pack_has_button(rs, n, bn));
            assert(l2.found.contains((rid, n)));
            let (i, k) = choose|i: int, k: int|
                0 <= i < rs.len() && 0 <= k < rs[i].buttons@.len() && is_named(#[trigger] rs[i].name@) && trim(
                    rs[i].name@,
                ) == n && is_named(#[trigger] rs[i].buttons@[k].name@) && trim(rs[i].buttons@[k].name@) == bn;
            assert(remote_seen(l1, rs[i]));
            let id = choose|id: i64|
                #[trigger] seen_remotes(l1).contains((id, trim(rs[i].name@))) && buttons_seen(
                    l1,
                    id,
                    rs[i].buttons@,
                    rs[i].buttons@.len() as int,
                );
            assert(db.remotes.contains((id, n)));
            assert(db.remotes.contains((rid, n)));
            assert(id == rid);
            assert(is_named(rs[i].buttons@[k].name@));
            assert(l1.buttons.contains((id, bn)));
            assert(db.buttons.contains((rid, bn)));
        }
    }
    assert forall|x: (i64, Seq<char>, Seq<char>)| !l2.missing_buttons.contains(x) by {
        assert(!l2.missing_buttons.contains((x.0, x.1, x.2)));
    }
    assert(l2.missing_buttons =~= Set::<(i64, Seq<char>, Seq<char>)>::empty());
}

proof fn lemma_buttons_prefix(rs: Seq<IrPackRemote>, ri: int, b: int)
    requires
        0 <= ri < rs.len(),
        is_named(rs[ri].name@),
        0 <= b <= rs[ri].buttons@.len(),
    ensures
        pack_buttons(rs.take(ri)) + named_buttons(rs[ri].buttons@.take(b)) <= pack_buttons(rs),
{
    lemma_named_remotes_step(rs, ri);
    lemma_named_remotes_prefix(rs, ri + 1);
    lemma_named_buttons_prefix(rs[ri].buttons@, b);
}

proof fn lemma_named_buttons_prefix(bs: Seq<IrPackButton>, k: int)
    requires
        0 <= k <= bs.len(),
    ensures
        named_buttons(bs.take(k)) <= named_buttons(bs),
    decreases bs.len() - k,
{
    if k < bs.len() {
        lemma_named_buttons_step(bs, k);
        lemma_named_buttons_prefix(bs, k + 1);
    } else {
        assert(bs.take(k) =~= bs);
    }
}

/// Index of the first remote at or after `from` with id `id`, or the
/// length when there is none.
pub open spec fn position_of_id(rs: Seq<IrRemoteRecord>, id: i64, from: int) -> int
    decreases rs.len() - from,
{
    if from < 0 || from >= rs.len() {
        rs.len() as int
    } else if rs[from].id == id {
        from
    } else {
        position_of_id(rs, id, from + 1)
    }
}

/// The remote with id `id` (the first, should there be several), or not
/// found.
pub fn find_remote(remotes: Vec<IrRemoteRecord>, id: i64) -> (r: Result<IrRemoteRecord, IrError>)
    ensures
        ({
            let k = position_of_id(remotes@, id, 0);
            if k < remotes@.len() {
                r matches Ok(rec) && rec == remotes@[k]
            } else {
                r matches Err(IrError::NotFound(m)) && m@ == "IR remote "@ + signed_decimal(id as int) + " not found"@
            }
        }),
{
    let ghost orig = remotes@;
    let mut list = remotes;
    let mut i: usize = 0;
    while i < list.len()
        invariant
            list@ == orig,
            orig == remotes@,
            i <= orig.len(),
            position_of_id(orig, id, 0) == position_of_id(orig, id, i as int),
        decreases orig.len() - i,
    {
        if list[i].id == id {
            let rec = list.swap_remove(i);
            return Ok(rec);
        }
        i = i + 1;
    }
    Err(crate::store::remote_not_found(id))
}

/// A stored raw text as exported: the array it holds, or nothing when
/// none is stored or it does not parse.
pub open spec fn exported_raw(raw: Option<Seq<char>>) -> Option<Seq<u32>> {
    match raw {
        Some(t) => parse_json_u32_array(t),
        None => None,
    }
}

/// A pack button's raw train as values.
pub open spec fn raw_view(raw: Option<Vec<u32>>) -> Option<Seq<u32>> {
    match raw {
        Some(v) => Some(v@),
        None => None,
    }
}

/// A stored text option as values.
pub open spec fn text_view(t: Option<String>) -> Option<Seq<char>> {
    match t {
        Some(s) => Some(s@),
        None => None,
    }
}

/// The pack entry of a stored button (with its stored raw text).
pub open spec fn is_export_of(p: IrPackButton, b: IrButtonRecord, raw: Option<Seq<char>>) -> bool {
    &&& p.name == b.name
    &&& p.protocol == b.proto
    &&& p.scancode == b.scancode
    &&& raw_view(p.raw) == exported_raw(raw)
    &&& p.carrier == Some(b.carrier)
}

/// The pack entry of a stored button.
pub fn export_button(b: &IrButtonRecord, raw: Option<String>) -> (p: IrPackButton)
    ensures
        is_export_of(p, *b, text_view(raw)),
{
    let parsed: Option<Vec<u32>> = match raw {
        Some(t) => match from_json_u32_array(t.as_str()) {
            Ok(v) => Some(v),
            Err(_) => None,
        },
        None => None,
    };
    IrPackButton {
        name: b.name.clone(),
        protocol: b.proto.clone(),
        scancode: b.scancode,
        raw: parsed,
        carrier: Some(b.carrier),
    }
}

/// A raw pulse train survives an import followed by an export: the text a
/// pack button is stored with reads back as the same values.
pub proof fn lemma_raw_roundtrip(ins: ButtonInsert, remote_id: i64, b: IrPackButton)
    requires
        is_insert_of(ins, remote_id, b),
        b.raw is Some,
    ensures
        exported_raw(text_view(ins.raw)) == raw_view(b.raw),
{
}

/// The stored raw text of button `i`, when one was read for it.
pub open spec fn raw_at(raws: Seq<Option<String>>, i: int) -> Option<Seq<char>> {
    if 0 <= i < raws.len() {
        text_view(raws[i])
    } else {
        None
    }
}

/// The pack that exports one remote: its name and every button in order,
/// button `i` with stored raw text `raws[i]`.
pub open spec fn is_export_pack(pack: IrRemotePack, remote: IrRemoteRecord, raws: Seq<Option<String>>) -> bool {
    &&& pack.format@ == pack_format()
    &&& pack.version == 1
    &&& pack.remotes@.len() == 1
    &&& pack.remotes@[0].name == remote.name
    &&& pack.remotes@[0].buttons@.len() == remote.buttons@.len()
    &&& forall|i: int| 0 <= i < remote.buttons@.len() ==> is_export_of(
        #[trigger] pack.remotes@[0].buttons@[i],
        remote.buttons@[i],
        raw_at(raws, i),
    )
}

/// The pack that exports `remote`.
pub fn export_pack(remote: &IrRemoteRecord, raws: Vec<Option<String>>) -> (pack: IrRemotePack)
    ensures
        is_export_pack(pack, *remote, raws@),
{
    let mut buttons: Vec<IrPackButton> = Vec::new();
    let mut i: usize = 0;
    while i < remote.buttons.len()
        invariant
            i <= remote.buttons@.len(),
            buttons@.len() == i,
            forall|j: int| 0 <= j < i ==> is_export_of(#[trigger] buttons@[j], remote.buttons@[j], raw_at(raws@, j)),
        decreases remote.buttons@.len() - i,
    {
        let raw: Option<String> = if i < raws.len() {
            match &raws[i] {
                Some(t) => Some(t.clone()),
                None => None,
            }
        } else {
            None
        };
        buttons.push(export_button(&remote.buttons[i], raw));
        i = i + 1;
    }
    let mut remotes: Vec<IrPackRemote> = Vec::new();
    remotes.push(IrPackRemote { name: remote.name.clone(), buttons });
    IrRemotePack { format: owned("one-kvm-ir-pack"), version: 1, remotes }
}

/// A file-name character that export keeps.
pub open spec fn is_safe_char(c: char) -> bool {
    ('a' <= c <= 'z') || ('A' <= c <= 'Z') || ('0' <= c <= '9') || c == '-' || c == '_'
}

/// The remote name with every other character replaced by `_`.
pub open spec fn safe_name(name: Seq<char>) -> Seq<char> {
    Seq::new(name.len(), |i: int| if is_safe_char(name[i]) { name[i] } else { '_' })
}

/// Making a name safe keeps its length, keeps every safe character in
/// place, and leaves only safe characters.
pub proof fn lemma_safe_name_is_safe(name: Seq<char>)
    ensures
        safe_name(name).len() == name.len(),
        forall|i: int| 0 <= i < name.len() ==> is_safe_char(#[trigger] safe_name(name)[i]),
        forall|i: int| 0 <= i < name.len() && is_safe_char(name[i]) ==> #[trigger] safe_name(name)[i] == name[i],
        (forall|i: int| 0 <= i < name.len() ==> is_safe_char(#[trigger] name[i])) ==> safe_name(name) == name,
{
    if forall|i: int| 0 <= i < name.len() ==> is_safe_char(#[trigger] name[i]) {
        assert(safe_name(name) =~= name);
    }
}

/// The download file name of an exported remote: the name made safe,
/// then `.onekvm-ir.json`.
pub fn export_filename(name: &str) -> (r: String)
    ensures
        r@ == safe_name(name@) + ".onekvm-ir.json"@,
{
    let n: usize = name.unicode_len();
    let mut out = String::new();
    let mut i: usize = 0;
    proof {
        reveal_strlit("_");
    }
    while i < n
        invariant
            n == name@.len(),
            i <= n,
            out@ =~= safe_name(name@).take(i as int),
        decreases n - i,
    {
        let c: char = name.get_char(i);
        let keep: bool = ('a' <= c && c <= 'z') || ('A' <= c && c <= 'Z') || ('0' <= c && c <= '9') || c == '-' || c
            == '_';
        assert(keep == is_safe_char(name@[i as int]));
        if keep {
            let one = name.substring_char(i, i + 1);
            assert(one@ =~= seq![name@[i as int]]);
            out.append(one);
        } else {
            proof {
                reveal_strlit("_");
            }
            out.append("_");
        }
        assert(safe_name(name@).take(i + 1) =~= safe_name(name@).take(i as int).push(safe_name(name@)[i as int]));
        i = i + 1;
    }
    assert(safe_name(name@).take(n as int) =~= safe_name(name@));
    out.append(".onekvm-ir.json");
    out
}

/// The `Content-Disposition` header of an exported remote.
pub fn export_disposition(name: &str) -> (r: String)
    ensures
        r@ == "attachment; filename=\""@ + safe_name(name@) + ".onekvm-ir.json"@ + "\""@,
{
    let file = export_filename(name);
    concat3("attachment; filename=\"", file.as_str(), "\"")
}

} // verus!
