//! Unpacking a downloaded game archive. The archive bytes are walked in
//! memory; each entry becomes one filesystem action, performed by the
//! caller. Extraction is best-effort per entry: one entry's failure is
//! recorded and skipped, never fatal to the whole unpack.
use vstd::prelude::*;
use vstd::string::*;

verus! {

#[verifier::external_type_specification]
#[verifier::external_body]
#[verifier::reject_recursive_types(T)]
pub struct ExCursor<T>(std::io::Cursor<T>);

#[verifier::external_type_specification]
#[verifier::external_body]
#[verifier::reject_recursive_types(R)]
pub struct ExZipArchive<R>(zip::ZipArchive<R>);

/// One entry read out of an archive.
pub struct ArchiveEntry {
    pub name: String,
    pub is_dir: bool,
    pub data: Vec<u8>,
}

/// The view of one entry: its name, directory flag and bytes.
pub open spec fn entry_view(e: ArchiveEntry) -> (Seq<char>, bool, Seq<u8>) {
    (e.name@, e.is_dir, e.data@)
}

/// The entries an archive holds, in index order: name, directory flag,
/// unpacked bytes (empty for a directory).
pub uninterp spec fn archive_entries(z: zip::ZipArchive<std::io::Cursor<Vec<u8>>>) -> Seq<
    (Seq<char>, bool, Seq<u8>),
>;

/// Whether one entry of an archive can actually be read out (its local
/// header and compressed data are intact): a function of the in-memory
/// archive value and the index alone.
pub uninterp spec fn entry_readable(z: zip::ZipArchive<std::io::Cursor<Vec<u8>>>, i: int) -> bool;

/// The entries that parsing a byte string as an archive yields, in index
/// order: a function of the bytes alone.
pub uninterp spec fn parsed_archive(bytes: Seq<u8>) -> Seq<(Seq<char>, bool, Seq<u8>)>;

/// Relies on zip::ZipArchive::new over an in-memory cursor: parses the
/// archive's central directory — a function of the bytes alone — and
/// rejects a malformed archive with an error.
#[verifier::external_body]
pub fn open_archive(bytes: Vec<u8>) -> (r: Option<zip::ZipArchive<std::io::Cursor<Vec<u8>>>>)
    ensures
        r matches Some(z) ==> archive_entries(z) == parsed_archive(bytes@),
{
    zip::ZipArchive::new(std::io::Cursor::new(bytes)).ok()
}

/// Relies on ZipArchive::len: the number of entries.
#[verifier::external_body]
fn zip_len(z: &zip::ZipArchive<std::io::Cursor<Vec<u8>>>) -> (n: usize)
    ensures
        n == archive_entries(*z).len(),
{
    z.len()
}

/// Relies on ZipArchive::by_index, ZipFile::name / is_dir, and
/// std::io::Read::read_to_end: one entry's name, directory flag and bytes.
/// Whether an entry can be read is determined by the archive and index;
/// a failure is an error, never a panic; and reading moves only the
/// cursor — the entry set and the readability of every entry stay as
/// they were.
#[verifier::external_body]
fn zip_entry(z: &mut zip::ZipArchive<std::io::Cursor<Vec<u8>>>, i: usize) -> (r: Option<
    ArchiveEntry,
>)
    requires
        i < archive_entries(*old(z)).len(),
    ensures
        archive_entries(*final (z)) == archive_entries(*old(z)),
        forall|j: int| #[trigger] entry_readable(*final (z), j) == entry_readable(*old(z), j),
        r is Some <==> entry_readable(*old(z), i as int),
        r matches Some(e) ==> entry_view(e) == archive_entries(*old(z))[i as int],
{
    let mut f = match z.by_index(i) {
        Ok(f) => f,
        Err(_) => return None,
    };
    let name = f.name().to_string();
    if f.is_dir() {
        return Some(ArchiveEntry { name, is_dir: true, data: Vec::new() });
    }
    let mut data = Vec::new();
    match std::io::Read::read_to_end(&mut f, &mut data) {
        Ok(_) => Some(ArchiveEntry { name, is_dir: false, data }),
        Err(_) => None,
    }
}

/// The readable entries among the first `n` of an archive, in index order.
pub open spec fn readable_entries_up_to(
    z: zip::ZipArchive<std::io::Cursor<Vec<u8>>>,
    n: int,
) -> Seq<(Seq<char>, bool, Seq<u8>)>
    decreases n,
{
    if n <= 0 {
        Seq::empty()
    } else if entry_readable(z, n - 1) {
        readable_entries_up_to(z, n - 1).push(archive_entries(z)[n - 1])
    } else {
        readable_entries_up_to(z, n - 1)
    }
}

/// Reads every entry of an archive, in index order. Entries the archive
/// library fails to yield are skipped, never fatal: the result is exactly
/// the readable entries of the archive, in order.
pub fn collect_entries(z: &mut zip::ZipArchive<std::io::Cursor<Vec<u8>>>) -> (v: Vec<ArchiveEntry>)
    ensures
        archive_entries(*final (z)) == archive_entries(*old(z)),
        forall|j: int| #[trigger] entry_readable(*final (z), j) == entry_readable(*old(z), j),
        v@.map_values(|e: ArchiveEntry| entry_view(e)) == readable_entries_up_to(
            *old(z),
            archive_entries(*old(z)).len() as int,
        ),
{
    let ghost z0 = *z;
    let n = zip_len(z);
    let mut v: Vec<ArchiveEntry> = Vec::new();
    let mut i: usize = 0;
    proof {
        assert(v@.map_values(|e: ArchiveEntry| entry_view(e)) =~= readable_entries_up_to(z0, 0));
    }
    while i < n
        invariant
            n == archive_entries(z0).len(),
            archive_entries(*z) == archive_entries(z0),
            forall|j: int| #[trigger] entry_readable(*z, j) == entry_readable(z0, j),
            0 <= i <= n,
            v@.map_values(|e: ArchiveEntry| entry_view(e)) == readable_entries_up_to(z0, i as int),
        decreases n - i,
    {
        let r = zip_entry(z, i);
        proof {
            assert(entry_readable(z0, i as int) == entry_readable(*z, i as int));
        }
        match r {
            Some(e) => {
                proof {
                    assert(entry_view(e) == archive_entries(z0)[i as int]);
                }
                v.push(e);
                proof {
                    assert(v@.map_values(|e2: ArchiveEntry| entry_view(e2))
                        =~= readable_entries_up_to(z0, i as int + 1));
                }
            },
            None => {
                proof {
                    assert(v@.map_values(|e2: ArchiveEntry| entry_view(e2))
                        =~= readable_entries_up_to(z0, i as int + 1));
                }
            },
        }
        i = i + 1;
    }
    v
}

/// Where one archive entry lands on disk: under the game's directory, at
/// the entry's own relative name.
pub open spec fn dest_path(root: Seq<char>, id: Seq<char>, name: Seq<char>) -> Seq<char> {
    root + "/"@ + id + "/"@ + name
}

/// One filesystem action of an extraction plan. Directories are created
/// lazily; the executor creates a file's parent directories before writing
/// it.
pub enum FsAction {
    MakeDir { path: String },
    WriteFile { path: String, data: Vec<u8> },
}

/// Plans the extraction of the collected entries into the game's
/// directory: one action per entry, in order — a directory entry becomes a
/// directory creation, a file entry a write of its bytes.
pub fn plan_actions(entries: Vec<ArchiveEntry>, root: &str, game_id: &str) -> (a: Vec<FsAction>)
    ensures
        a@.len() == entries@.len(),
        forall|i: int|
            0 <= i < entries@.len() && entries@[i].is_dir ==> (#[trigger] a@[i]
                matches FsAction::MakeDir { path } && path@ == dest_path(
                root@,
                game_id@,
                entries@[i].name@,
            )),
        forall|i: int|
            0 <= i < entries@.len() && !entries@[i].is_dir ==> (#[trigger] a@[i]
                matches FsAction::WriteFile { path, data } && path@ == dest_path(
                root@,
                game_id@,
                entries@[i].name@,
            ) && data@ == entries@[i].data@),
{
    let ghost entries0 = entries@;
    let mut rest = entries;
    let mut a: Vec<FsAction> = Vec::new();
    while rest.len() > 0
        invariant
            a@.len() + rest@.len() == entries0.len(),
            rest@ =~= entries0.skip(a@.len() as int),
            forall|i: int|
                0 <= i < a@.len() && entries0[i].is_dir ==> (#[trigger] a@[i]
                    matches FsAction::MakeDir { path } && path@ == dest_path(
                    root@,
                    game_id@,
                    entries0[i].name@,
                )),
            forall|i: int|
                0 <= i < a@.len() && !entries0[i].is_dir ==> (#[trigger] a@[i]
                    matches FsAction::WriteFile { path, data } && path@ == dest_path(
                    root@,
                    game_id@,
                    entries0[i].name@,
                ) && data@ == entries0[i].data@),
        decreases rest@.len(),
    {
        let e = rest.remove(0);
        proof {
            assert(e == entries0[a@.len() as int]);
            assert(rest@ =~= entries0.skip(a@.len() as int + 1));
        }
        let mut path = root.to_owned();
        path.append("/");
        path.append(game_id);
        path.append("/");
        path.append(e.name.as_str());
        if e.is_dir {
            a.push(FsAction::MakeDir { path });
        } else {
            a.push(FsAction::WriteFile { path, data: e.data });
        }
    }
    a
}

/// The outcome the executor reports for one action: the entry's name, and
/// whether the action succeeded, with the error text otherwise.
pub struct EntryOutcome {
    pub name: String,
    pub ok: bool,
    pub error: String,
}

/// How many outcomes succeeded.
pub open spec fn count_ok(s: Seq<(Seq<char>, bool)>) -> nat
    decreases s.len(),
{
    if s.len() == 0 {
        0
    } else {
        (if s[0].1 {
            1nat
        } else {
            0nat
        }) + count_ok(s.drop_first())
    }
}

/// The names of the failed outcomes, in order.
pub open spec fn failed_names(s: Seq<(Seq<char>, bool)>) -> Seq<Seq<char>>
    decreases s.len(),
{
    if s.len() == 0 {
        Seq::empty()
    } else if s[0].1 {
        failed_names(s.drop_first())
    } else {
        seq![s[0].0] + failed_names(s.drop_first())
    }
}

/// The view of one outcome: its name and success flag.
pub open spec fn outcome_view(o: EntryOutcome) -> (Seq<char>, bool) {
    (o.name@, o.ok)
}

/// The summary of one extraction: every entry was attempted, the successes
/// counted, the failures listed — never aborted early.
pub struct ExtractionReport {
    pub attempted: usize,
    pub succeeded: usize,
    pub failures: Vec<String>,
}

/// Folds per-entry outcomes into a report covering every entry: failures
/// are recorded and skipped, and the report is produced whatever they were.
pub fn summarize_outcomes(outcomes: &Vec<EntryOutcome>) -> (r: ExtractionReport)
    ensures
        r.attempted == outcomes@.len(),
        r.succeeded == count_ok(outcomes@.map_values(|o: EntryOutcome| outcome_view(o))),
        r.failures.deep_view() == failed_names(
            outcomes@.map_values(|o: EntryOutcome| outcome_view(o)),
        ),
{
    let ghost all = outcomes@.map_values(|o: EntryOutcome| outcome_view(o));
    let n = outcomes.len();
    let mut succeeded: usize = 0;
    let mut failures: Vec<String> = Vec::new();
    let mut i: usize = 0;
    while i < n
        invariant
            n == outcomes@.len(),
            all == outcomes@.map_values(|o: EntryOutcome| outcome_view(o)),
            all.len() == n,
            0 <= i <= n,
            succeeded == count_ok(all.take(i as int)),
            succeeded <= i,
            failures.deep_view() == failed_names(all.take(i as int)),
        decreases n - i,
    {
        proof {
            lemma_take_one_more(all, i as int);
        }
        if outcomes[i].ok {
            succeeded = succeeded + 1;
        } else {
            failures.push(outcomes[i].name.clone());
            proof {
                assert(failures.deep_view() =~= failed_names(all.take(i + 1)));
            }
        }
        i = i + 1;
    }
    proof {
        assert(all.take(n as int) =~= all);
    }
    ExtractionReport { attempted: n, succeeded, failures }
}

/// Counting and failure-listing over a prefix extended by one outcome.
proof fn lemma_take_one_more(s: Seq<(Seq<char>, bool)>, i: int)
    requires
        0 <= i < s.len(),
    ensures
        count_ok(s.take(i + 1)) == count_ok(s.take(i)) + (if s[i].1 {
            1nat
        } else {
            0nat
        }),
        failed_names(s.take(i + 1)) == if s[i].1 {
            failed_names(s.take(i))
        } else {
            failed_names(s.take(i)).push(s[i].0)
        },
    decreases i,
{
    if i == 0 {
        assert(s.take(1) =~= seq![s[0]]);
        assert(s.take(1).drop_first() =~= Seq::<(Seq<char>, bool)>::empty());
        assert(s.take(0) =~= Seq::<(Seq<char>, bool)>::empty());
        if !s[0].1 {
            assert(s.take(1)[0] == s[0]);
            assert(failed_names(s.take(1).drop_first()) =~= Seq::<Seq<char>>::empty());
            assert(failed_names(s.take(1)) =~= seq![s[0].0]);
            assert(failed_names(s.take(0)).push(s[0].0) =~= seq![s[0].0]);
        }
    } else {
        lemma_take_one_more(s.drop_first(), i - 1);
        assert(s.take(i + 1).drop_first() =~= s.drop_first().take(i));
        assert(s.take(i).drop_first() =~= s.drop_first().take(i - 1));
        assert(s.drop_first()[i - 1] == s[i]);
        if s[0].1 {
        } else {
            if s[i].1 {
            } else {
                assert(seq![s[0].0] + failed_names(s.drop_first().take(i - 1)).push(s[i].0) =~= (
                seq![s[0].0] + failed_names(s.drop_first().take(i - 1))).push(s[i].0));
            }
        }
    }
}

/// Best-effort extraction: when exactly one entry fails, every other entry
/// still succeeds in the report — the summary covers all entries, counts
/// all the others as succeeded, and lists exactly the failing entry.
pub proof fn lemma_one_failure_isolated(s: Seq<(Seq<char>, bool)>, bad: int)
    requires
        0 <= bad < s.len(),
        !s[bad].1,
        forall|i: int| 0 <= i < s.len() && i != bad ==> (#[trigger] s[i]).1,
    ensures
        count_ok(s) == s.len() - 1,
        failed_names(s) == seq![s[bad].0],
    decreases s.len(),
{
    if bad == 0 {
        lemma_all_ok(s.drop_first());
        assert(seq![s[0].0] + failed_names(s.drop_first()) =~= seq![s[0].0]);
    } else {
        assert(s[0].1);
        assert(s.drop_first()[bad - 1] == s[bad]);
        lemma_one_failure_isolated(s.drop_first(), bad - 1);
    }
}

/// A run with no failures: everything counted, nothing listed.
pub proof fn lemma_all_ok(s: Seq<(Seq<char>, bool)>)
    requires
        forall|i: int| 0 <= i < s.len() ==> (#[trigger] s[i]).1,
    ensures
        count_ok(s) == s.len(),
        failed_names(s) == Seq::<Seq<char>>::empty(),
    decreases s.len(),
{
    if s.len() > 0 {
        lemma_all_ok(s.drop_first());
    }
}

} // verus!
