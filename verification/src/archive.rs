use vstd::prelude::*;

use std::io::Cursor;
use std::io::Read;
use zip::result::ZipError;
use zip::ZipArchive;

use crate::text::has_suffix;

verus! {

#[verifier::external_type_specification]
#[verifier::external_body]
#[verifier::reject_recursive_types(R)]
pub struct ExZipArchive<R>(ZipArchive<R>);

#[verifier::external_type_specification]
#[verifier::external_body]
#[verifier::reject_recursive_types(T)]
pub struct ExCursor<T>(Cursor<T>);

/// What the archive says of one of its entries.
#[derive(Debug)]
pub struct EntryMeta {
    /// The entry's name, when it can be decoded.
    pub name: Option<String>,
    /// The entry's name as a path that stays inside the extraction directory, if it is one.
    pub enclosed: Option<String>,
    /// The Unix permissions recorded for the entry.
    pub unix_mode: Option<u32>,
}

impl View for EntryMeta {
    type V = (Option<Seq<char>>, Option<Seq<char>>, Option<u32>);

    open spec fn view(&self) -> (Option<Seq<char>>, Option<Seq<char>>, Option<u32>) {
        (
            match self.name {
                Some(n) => Some(n@),
                None => None,
            },
            match self.enclosed {
                Some(p) => Some(p@),
                None => None,
            },
            self.unix_mode,
        )
    }
}

/// The entries of an opened archive, in the archive's order: for each, the text of the error
/// when the entry cannot be opened, and otherwise its metadata and its uncompressed contents (or
/// the text of the error when they cannot be read).
pub uninterp spec fn archive_entries(archive: ZipArchive<Cursor<Vec<u8>>>) -> Seq<
    Result<((Option<Seq<char>>, Option<Seq<char>>, Option<u32>), Result<Seq<u8>, Seq<char>>), Seq<char>>,
>;

/// The metadata of an entry that could be opened.
pub open spec fn meta_of(
    e: Result<((Option<Seq<char>>, Option<Seq<char>>, Option<u32>), Result<Seq<u8>, Seq<char>>), Seq<char>>,
) -> Option<(Option<Seq<char>>, Option<Seq<char>>, Option<u32>)> {
    match e {
        Ok((m, _)) => Some(m),
        Err(_) => None,
    }
}

/// The uncompressed contents of an entry, or the text of the error that stops their reading.
pub open spec fn data_of(
    e: Result<((Option<Seq<char>>, Option<Seq<char>>, Option<u32>), Result<Seq<u8>, Seq<char>>), Seq<char>>,
) -> Result<Seq<u8>, Seq<char>> {
    match e {
        Ok((_, d)) => d,
        Err(t) => Err(t),
    }
}

/// What `zip::ZipArchive::new` makes of `bytes`: the text of its error when it refuses them, and
/// otherwise the entries of the archive they hold (as `archive_entries` gives them).
pub uninterp spec fn zip_contents(bytes: Seq<u8>) -> Result<
    Seq<Result<((Option<Seq<char>>, Option<Seq<char>>, Option<u32>), Result<Seq<u8>, Seq<char>>), Seq<char>>>,
    Seq<char>,
>;

/// Opens an in-memory ZIP archive with `zip::ZipArchive::new` (default configuration), which
/// reads its central directory; whether it succeeds, the entries it finds and the error's text
/// (as `Display` writes it) depend on the bytes alone.
#[verifier::external_body]
fn open_archive(bytes: Vec<u8>) -> (r: Result<ZipArchive<Cursor<Vec<u8>>>, String>)
    ensures
        r matches Ok(a) ==> zip_contents(bytes@) is Ok && zip_contents(bytes@)->Ok_0 == archive_entries(a),
        r matches Err(t) ==> zip_contents(bytes@) is Err && zip_contents(bytes@)->Err_0 == t@,
{
    match ZipArchive::new(Cursor::new(bytes)) {
        Ok(a) => Ok(a),
        Err(e) => Err(e.to_string()),
    }
}

/// `zip::ZipArchive::len`: the number of entries that the central directory lists.
#[verifier::external_body]
fn archive_len(archive: &ZipArchive<Cursor<Vec<u8>>>) -> (n: usize)
    ensures
        n == archive_entries(*archive).len(),
{
    archive.len()
}

/// `zip::ZipArchive::by_index`, read for the entry's name (`name`), its safe path
/// (`enclosed_name`) and its Unix mode (`unix_mode`); the error's text (`Display`) when the entry
/// cannot be opened. Reading an entry moves the archive's reader but leaves its entries as they
/// are.
#[verifier::external_body]
fn entry_meta(archive: &mut ZipArchive<Cursor<Vec<u8>>>, index: usize) -> (r: Result<
    EntryMeta,
    String,
>)
    requires
        index < archive_entries(*old(archive)).len(),
    ensures
        archive_entries(*final(archive)) == archive_entries(*old(archive)),
        r is Ok == archive_entries(*old(archive))[index as int] is Ok,
        r matches Ok(m) ==> meta_of(archive_entries(*old(archive))[index as int]) == Some(m@),
        r matches Err(t) ==> archive_entries(*old(archive))[index as int] is Err
            && archive_entries(*old(archive))[index as int]->Err_0 == t@,
{
    let f = match archive.by_index(index) {
        Ok(f) => f,
        Err(e) => return Err(e.to_string()),
    };
    let name = match f.name() {
        Ok(n) => Some(n.into_owned()),
        Err(_) => None,
    };
    let enclosed = match f.enclosed_name() {
        Some(p) => Some(p.to_string_lossy().into_owned()),
        None => None,
    };
    Ok(EntryMeta { name, enclosed, unix_mode: f.unix_mode() })
}

/// `zip::ZipArchive::by_index`, read to its end: the entry's uncompressed contents, or the text
/// (`Display`) of the error that stops opening or reading it; the archive's entries stay as they
/// are.
#[verifier::external_body]
fn entry_data(archive: &mut ZipArchive<Cursor<Vec<u8>>>, index: usize) -> (r: Result<
    Vec<u8>,
    String,
>)
    requires
        index < archive_entries(*old(archive)).len(),
    ensures
        archive_entries(*final(archive)) == archive_entries(*old(archive)),
        r matches Ok(d) ==> data_of(archive_entries(*old(archive))[index as int]) is Ok && data_of(archive_entries(*old(archive))[index as int])->Ok_0 == d@,
        r matches Err(t) ==> data_of(archive_entries(*old(archive))[index as int]) is Err && data_of(archive_entries(*old(archive))[index as int])->Err_0 == t@,
{
    let mut f = match archive.by_index(index) {
        Ok(f) => f,
        Err(e) => return Err(e.to_string()),
    };
    let mut data: Vec<u8> = Vec::new();
    match f.read_to_end(&mut data) {
        Ok(_) => Ok(data),
        Err(e) => Err(ZipError::from(e).to_string()),
    }
}

/// What extraction does for one entry.
#[derive(Debug, PartialEq, Eq)]
pub enum ExtractKind {
    /// Create the directory.
    Directory,
    /// Write the entry's contents to the file, and give it these Unix permissions if recorded.
    File(Option<u32>),
}

/// One step of an extraction: an entry, its path below the extraction directory, and what to do.
#[derive(Debug)]
pub struct ExtractStep {
    pub index: usize,
    pub path: String,
    pub kind: ExtractKind,
}

/// The step for the entry `m` at `index`: none when its name leaves the extraction directory; a
/// directory when its name ends with `/`; a file otherwise.
pub open spec fn step_for(index: int, m: (Option<Seq<char>>, Option<Seq<char>>, Option<u32>)) -> Option<
    (int, Seq<char>, ExtractKind),
> {
    match m.1 {
        None => None,
        Some(path) => Some(
            (
                index,
                path,
                if m.0 matches Some(n) && has_suffix(n, "/"@) {
                    ExtractKind::Directory
                } else {
                    ExtractKind::File(m.2)
                },
            ),
        ),
    }
}

/// The steps for the entries `ms`, in order.
pub open spec fn plan_text(ms: Seq<(Option<Seq<char>>, Option<Seq<char>>, Option<u32>)>) -> Seq<
    (int, Seq<char>, ExtractKind),
>
    decreases ms.len(),
{
    if ms.len() == 0 {
        seq![]
    } else {
        let rest = plan_text(ms.drop_last());
        match step_for(ms.len() - 1, ms.last()) {
            Some(s) => rest.push(s),
            None => rest,
        }
    }
}

pub open spec fn step_view(s: ExtractStep) -> (int, Seq<char>, ExtractKind) {
    (s.index as int, s.path@, s.kind)
}

/// What extraction does with an entry is fixed by its name alone, never by its recorded Unix mode:
/// nothing when the name leaves the extraction directory; otherwise a step at the entry's own
/// path, a directory exactly when the name ends with `/`, and else a file that takes the recorded
/// mode.
pub proof fn lemma_step_by_name(
    index: int,
    name: Option<Seq<char>>,
    enclosed: Option<Seq<char>>,
    mode: Option<u32>,
)
    ensures
        enclosed is None ==> step_for(index, (name, enclosed, mode)) is None,
        enclosed matches Some(path) ==> step_for(index, (name, enclosed, mode)) == Some(
            (
                index,
                path,
                if name matches Some(n) && n.len() > 0 && n[n.len() - 1] == '/' {
                    ExtractKind::Directory
                } else {
                    ExtractKind::File(mode)
                },
            ),
        ),
{
    reveal_strlit("/");
    if let Some(n) = name {
        if n.len() > 0 && n[n.len() - 1] == '/' {
            assert(n.skip(n.len() - 1) =~= "/"@);
        } else if has_suffix(n, "/"@) {
            assert(n.skip(n.len() - 1)[0] == "/"@[0]);
        }
    }
}

/// What extraction does for the entry `m` at `index`: nothing when its name leaves the
/// extraction directory, a directory when its name ends with `/`, a file otherwise.
pub fn extraction_step(index: usize, m: &EntryMeta) -> (s: Option<ExtractStep>)
    ensures
        match s {
            Some(st) => step_for(index as int, m@) == Some(step_view(st)),
            None => step_for(index as int, m@) is None,
        },
{
    match &m.enclosed {
        None => None,
        Some(path) => {
            let is_dir = match &m.name {
                Some(n) => crate::text::str_ends_with(n.as_str(), "/"),
                None => false,
            };
            let kind = if is_dir {
                ExtractKind::Directory
            } else {
                ExtractKind::File(m.unix_mode)
            };
            Some(ExtractStep { index, path: path.clone(), kind })
        },
    }
}

/// What extracting the entries `entries` does, entry by entry, skipping those whose names would
/// leave the extraction directory.
pub fn extraction_plan(entries: &Vec<EntryMeta>) -> (plan: Vec<ExtractStep>)
    ensures
        plan@.map_values(|s: ExtractStep| step_view(s)) == plan_text(
            entries@.map_values(|m: EntryMeta| m@),
        ),
{
    let mut plan: Vec<ExtractStep> = Vec::new();
    let mut i: usize = 0;
    let ghost ms = entries@.map_values(|m: EntryMeta| m@);
    assert(ms.take(0) =~= Seq::<(Option<Seq<char>>, Option<Seq<char>>, Option<u32>)>::empty());
    while i < entries.len()
        invariant
            i <= entries.len(),
            ms == entries@.map_values(|m: EntryMeta| m@),
            plan@.map_values(|s: ExtractStep| step_view(s)) == plan_text(ms.take(i as int)),
        decreases entries.len() - i,
    {
        let ghost pre = ms.take(i as int);
        let ghost next = ms.take(i + 1);
        assert(next.drop_last() =~= pre);
        assert(next.last() == entries@[i as int]@);
        match extraction_step(i, &entries[i]) {
            None => {},
            Some(st) => {
                let ghost before = plan@;
                plan.push(st);
                assert(plan@.map_values(|s: ExtractStep| step_view(s)) =~= before.map_values(
                    |s: ExtractStep| step_view(s),
                ).push(step_for(i as int, entries@[i as int]@)->0));
            },
        }
        i = i + 1;
    }
    assert(ms.take(entries.len() as int) =~= ms);
    plan
}

/// A ZIP archive held in memory.
pub struct ZipPackage {
    archive: ZipArchive<Cursor<Vec<u8>>>,
}

impl ZipPackage {
    /// The package's entries: for each, the error's text when it cannot be opened, and otherwise
    /// its metadata and its uncompressed contents (or the error's text when they cannot be read).
    pub closed spec fn entries_view(&self) -> Seq<
        Result<((Option<Seq<char>>, Option<Seq<char>>, Option<u32>), Result<Seq<u8>, Seq<char>>), Seq<char>>,
    > {
        archive_entries(self.archive)
    }

    /// Opens the archive in `bytes`; the error's text when it is not one.
    pub fn open(bytes: Vec<u8>) -> (r: Result<ZipPackage, String>)
        ensures
            r matches Ok(p) ==> zip_contents(bytes@) is Ok && zip_contents(bytes@)->Ok_0 == p.entries_view(),
            r matches Err(t) ==> zip_contents(bytes@) is Err && zip_contents(bytes@)->Err_0 == t@,
    {
        match open_archive(bytes) {
            Ok(archive) => Ok(ZipPackage { archive }),
            Err(t) => Err(t),
        }
    }

    /// The metadata of every entry, in order; the error's text of the first entry that cannot be
    /// opened.
    pub fn entries(&mut self) -> (r: Result<Vec<EntryMeta>, String>)
        ensures
            final(self).entries_view() == old(self).entries_view(),
            r is Ok == forall|i: int|
                0 <= i < old(self).entries_view().len() ==> #[trigger] old(
                    self,
                ).entries_view()[i] is Ok,
            r matches Ok(v) ==> v.len() == old(self).entries_view().len() && forall|i: int|
                0 <= i < v.len() ==> meta_of(old(self).entries_view()[i]) == Some(#[trigger] v@[i]@),
            r matches Err(t) ==> exists|i: int|
                0 <= i < old(self).entries_view().len() && old(self).entries_view()[i] is Err
                    && #[trigger] old(self).entries_view()[i]->Err_0 == t@ && forall|j: int|
                    0 <= j < i ==> #[trigger] old(self).entries_view()[j] is Ok,
    {
        let n = archive_len(&self.archive);
        let ghost all = archive_entries(self.archive);
        let mut v: Vec<EntryMeta> = Vec::new();
        let mut i: usize = 0;
        while i < n
            invariant
                n == all.len(),
                i <= n,
                archive_entries(self.archive) == all,
                all == old(self).entries_view(),
                v.len() == i,
                forall|j: int| 0 <= j < i ==> #[trigger] all[j] is Ok,
                forall|j: int| 0 <= j < i ==> meta_of(all[j]) == Some(#[trigger] v@[j]@),
            decreases n - i,
        {
            match entry_meta(&mut self.archive, i) {
                Ok(m) => {
                    v.push(m);
                },
                Err(t) => {
                    assert(all[i as int] is Err && all[i as int]->Err_0 == t@);
                    return Err(t);
                },
            }
            i = i + 1;
        }
        Ok(v)
    }

    /// The metadata of entry `index`; the error's text when it cannot be opened.
    pub fn entry(&mut self, index: usize) -> (r: Result<EntryMeta, String>)
        requires
            index < old(self).entries_view().len(),
        ensures
            final(self).entries_view() == old(self).entries_view(),
            r is Ok == old(self).entries_view()[index as int] is Ok,
            r matches Ok(m) ==> meta_of(old(self).entries_view()[index as int]) == Some(m@),
            r matches Err(t) ==> old(self).entries_view()[index as int] is Err && old(
                self,
            ).entries_view()[index as int]->Err_0 == t@,
    {
        entry_meta(&mut self.archive, index)
    }

    /// The uncompressed contents of entry `index`; the error's text when it cannot be opened or
    /// read.
    pub fn contents(&mut self, index: usize) -> (r: Result<Vec<u8>, String>)
        requires
            index < old(self).entries_view().len(),
        ensures
            final(self).entries_view() == old(self).entries_view(),
            r matches Ok(d) ==> data_of(old(self).entries_view()[index as int]) is Ok && data_of(old(self).entries_view()[index as int])->Ok_0 == d@,
            r matches Err(t) ==> data_of(old(self).entries_view()[index as int]) is Err && data_of(old(self).entries_view()[index as int])->Err_0 == t@,
    {
        entry_data(&mut self.archive, index)
    }

    /// The number of entries.
    pub fn len(&self) -> (n: usize)
        ensures
            n == self.entries_view().len(),
    {
        archive_len(&self.archive)
    }
}

} // verus!
