use vstd::prelude::*;

use vstd::multiset::Multiset;
use vstd::relations::sorted_by;
use vstd::seq_lib::to_multiset_insert;

use crate::text::ascii_lower;
use crate::text::extension_of;
use crate::text::lemma_lex_le_total;
use crate::text::lemma_lex_le_trans;
use crate::text::lower_seq;
use crate::text::name_le;
use crate::text::name_le_spec;
use crate::text::spec_extension;

verus! {

/// One entry of a directory listing: full path, bare name, lowercased
/// extension (empty for directories), size in bytes (zero for directories),
/// and whether it is a directory.
#[derive(Debug, Clone)]
pub struct FileEntry {
    pub path: String,
    pub name: String,
    pub extension: String,
    pub size_bytes: u64,
    pub is_directory: bool,
}

/// The mathematical content of a [`FileEntry`].
pub ghost struct EntryView {
    pub path: Seq<char>,
    pub name: Seq<char>,
    pub extension: Seq<char>,
    pub size_bytes: u64,
    pub is_directory: bool,
}

impl View for FileEntry {
    type V = EntryView;

    open spec fn view(&self) -> EntryView {
        EntryView {
            path: self.path@,
            name: self.name@,
            extension: self.extension@,
            size_bytes: self.size_bytes,
            is_directory: self.is_directory,
        }
    }
}

/// One directory entry as the caller read it from disk, before any
/// filtering: its full path, its bare name, its size, and whether it is a
/// directory.
#[derive(Debug, Clone)]
pub struct RawEntry {
    pub path: String,
    pub name: String,
    pub size_bytes: u64,
    pub is_directory: bool,
}

/// The mathematical content of a [`RawEntry`].
pub ghost struct RawView {
    pub path: Seq<char>,
    pub name: Seq<char>,
    pub size_bytes: u64,
    pub is_directory: bool,
}

impl View for RawEntry {
    type V = RawView;

    open spec fn view(&self) -> RawView {
        RawView {
            path: self.path@,
            name: self.name@,
            size_bytes: self.size_bytes,
            is_directory: self.is_directory,
        }
    }
}

/// A browsable listing of one directory: subdirectories first, then the
/// audio files, each group sorted by name.
#[derive(Debug, Clone)]
pub struct DirListing {
    pub root: String,
    pub entries: Vec<FileEntry>,
}

/// A flat scan of one directory: the audio files found, sorted by name.
#[derive(Debug, Clone)]
pub struct ScanResult {
    pub root: String,
    pub files: Vec<FileEntry>,
}

/// The views of a sequence of entries.
pub open spec fn views_of(s: Seq<FileEntry>) -> Seq<EntryView> {
    s.map_values(|e: FileEntry| e@)
}

/// The views of a sequence of raw entries.
pub open spec fn raw_views(s: Seq<RawEntry>) -> Seq<RawView> {
    s.map_values(|r: RawEntry| r@)
}

/// The views of a sequence of strings.
pub open spec fn string_views(s: Seq<String>) -> Seq<Seq<char>> {
    s.map_values(|x: String| x@)
}

/// A name is hidden when it starts with a dot.
pub open spec fn hidden(name: Seq<char>) -> bool {
    name.len() > 0 && name[0] == '.'
}

/// The file extensions the browser lists as audio.
pub open spec fn supported_extension_spec(ext: Seq<char>) -> bool {
    ||| ext == "wav"@
    ||| ext == "flac"@
    ||| ext == "mp3"@
    ||| ext == "ogg"@
}

/// The audio extensions the browser lists, lowercased.
pub fn supported_extensions() -> (exts: Vec<String>)
    ensures
        exts@.len() == 4,
        forall|k: int| 0 <= k < 4 ==> supported_extension_spec(#[trigger] exts@[k]@),
        forall|e: Seq<char>|
            supported_extension_spec(e) ==> exists|k: int| 0 <= k < 4 && #[trigger] exts@[k]@ == e,
{
    let mut exts: Vec<String> = Vec::new();
    exts.push(String::from_str("wav"));
    exts.push(String::from_str("flac"));
    exts.push(String::from_str("mp3"));
    exts.push(String::from_str("ogg"));
    proof {
        assert forall|e: Seq<char>| supported_extension_spec(e) implies exists|k: int|
            0 <= k < 4 && #[trigger] exts@[k]@ == e by {
            if e == "wav"@ {
                assert(exts@[0]@ == e);
            } else if e == "flac"@ {
                assert(exts@[1]@ == e);
            } else if e == "mp3"@ {
                assert(exts@[2]@ == e);
            } else {
                assert(exts@[3]@ == e);
            }
        }
    }
    exts
}

fn is_supported_extension(ext: &str) -> (r: bool)
    ensures
        r == supported_extension_spec(ext@),
{
    let e = String::from_str(ext);
    e == String::from_str("wav") || e == String::from_str("flac") || e == String::from_str("mp3")
        || e == String::from_str("ogg")
}

fn is_hidden(name: &str) -> (r: bool)
    ensures
        r == hidden(name@),
{
    let n = name.unicode_len();
    if n == 0 {
        return false;
    }
    name.get_char(0) == '.'
}

/// Which raw entries a listing keeps as subdirectories: directories that
/// are not hidden.
pub open spec fn keep_dir(r: RawView) -> bool {
    r.is_directory && !hidden(r.name)
}

/// Which raw entries a listing keeps as audio files: non-hidden files whose
/// lowercased extension is a supported audio extension.
pub open spec fn keep_file(r: RawView) -> bool {
    &&& !r.is_directory
    &&& !hidden(r.name)
    &&& supported_extension_spec(lower_seq(spec_extension(r.name)))
}

/// [`keep_dir`] as a predicate value, so that every statement speaks of one
/// and the same predicate.
pub open spec fn keep_dir_fn() -> spec_fn(RawView) -> bool {
    |r: RawView| keep_dir(r)
}

/// [`keep_file`] as a predicate value.
pub open spec fn keep_file_fn() -> spec_fn(RawView) -> bool {
    |r: RawView| keep_file(r)
}

/// The listing entry made of a kept subdirectory.
pub open spec fn dir_view(r: RawView) -> EntryView {
    EntryView {
        path: r.path,
        name: r.name,
        extension: Seq::empty(),
        size_bytes: 0,
        is_directory: true,
    }
}

/// The listing entry made of a kept file: it carries the file's size and
/// its lowercased extension.
pub open spec fn file_view(r: RawView) -> EntryView {
    EntryView {
        path: r.path,
        name: r.name,
        extension: lower_seq(spec_extension(r.name)),
        size_bytes: r.size_bytes,
        is_directory: false,
    }
}

/// [`dir_view`] as a map value.
pub open spec fn dir_view_fn() -> spec_fn(RawView) -> EntryView {
    |r: RawView| dir_view(r)
}

/// [`file_view`] as a map value.
pub open spec fn file_view_fn() -> spec_fn(RawView) -> EntryView {
    |r: RawView| file_view(r)
}

/// The case-insensitive by-name order on listing entries.
pub open spec fn entry_le(a: EntryView, b: EntryView) -> bool {
    name_le_spec(a.name, b.name)
}

/// [`entry_le`] as a relation value, so that every statement about
/// sortedness speaks of one and the same relation.
pub open spec fn entry_le_fn() -> spec_fn(EntryView, EntryView) -> bool {
    |a: EntryView, b: EntryView| entry_le(a, b)
}

/// Insert `e` into the name-sorted `out`, keeping it sorted.
fn insert_sorted(out: &mut Vec<FileEntry>, e: FileEntry)
    requires
        sorted_by(views_of(old(out)@), entry_le_fn()),
    ensures
        sorted_by(views_of(final(out)@), entry_le_fn()),
        views_of(final(out)@).to_multiset() == views_of(old(out)@).to_multiset().insert(e@),
{
    let mut k: usize = 0;
    while k < out.len() && name_le(out[k].name.as_str(), e.name.as_str())
        invariant
            k <= out@.len(),
            *out == *old(out),
            forall|j: int| 0 <= j < k ==> entry_le(#[trigger] views_of(out@)[j], e@),
        decreases out@.len() - k,
    {
        proof {
            assert(views_of(out@)[k as int] == out@[k as int]@);
        }
        k = k + 1;
    }
    let ghost pre = views_of(out@);
    let ghost kk = k as int;
    proof {
        if k < out@.len() {
            lemma_lex_le_total(lower_seq(out@[kk].name@), lower_seq(e.name@));
        }
    }
    out.insert(k, e);
    proof {
        let post = views_of(out@);
        assert(post =~= pre.insert(kk, e@));
        to_multiset_insert(pre, kk, e@);
        assert forall|i: int, j: int| 0 <= i < j < post.len() implies #[trigger] entry_le_fn()(
            post[i],
            post[j],
        ) by {
            if i < kk && j < kk {
                assert(entry_le_fn()(pre[i], pre[j]));
            } else if i < kk && j == kk {
                assert(entry_le(pre[i], e@));
            } else if i < kk && j > kk {
                assert(entry_le_fn()(pre[i], pre[j - 1]));
            } else if i == kk && j > kk {
                // e precedes everything from position kk on
                if j - 1 == kk {
                    assert(entry_le(e@, pre[kk]));
                } else {
                    assert(entry_le_fn()(pre[kk], pre[j - 1]));
                    lemma_lex_le_trans(
                        lower_seq(e@.name),
                        lower_seq(pre[kk].name),
                        lower_seq(pre[j - 1].name),
                    );
                }
            } else {
                assert(i > kk && j > kk);
                assert(entry_le_fn()(pre[i - 1], pre[j - 1]));
            }
        }
    }
}

/// Sort entries by name, case-insensitively. The result is the same
/// multiset of entries, in sorted order.
fn sort_entries(v: &mut Vec<FileEntry>)
    ensures
        sorted_by(views_of(final(v)@), entry_le_fn()),
        views_of(final(v)@).to_multiset() == views_of(old(v)@).to_multiset(),
{
    broadcast use vstd::seq_lib::group_to_multiset_ensures;
    broadcast use vstd::multiset::group_multiset_axioms;

    let mut out: Vec<FileEntry> = Vec::new();
    proof {
        assert(views_of(out@) =~= Seq::<EntryView>::empty());
        assert(views_of(out@).to_multiset().add(views_of(v@).to_multiset()) =~= views_of(
            old(v)@,
        ).to_multiset());
    }
    while v.len() > 0
        invariant
            sorted_by(views_of(out@), entry_le_fn()),
            views_of(out@).to_multiset().add(views_of(v@).to_multiset()) == views_of(
                old(v)@,
            ).to_multiset(),
        decreases v@.len(),
    {
        broadcast use vstd::seq_lib::group_to_multiset_ensures;
        broadcast use vstd::multiset::group_multiset_axioms;

        let ghost vpre = views_of(v@);
        let ghost opre = views_of(out@);
        let e = v.pop().unwrap();
        proof {
            assert(views_of(v@).push(e@) =~= vpre);
            assert(vpre.to_multiset() == views_of(v@).to_multiset().insert(e@));
        }
        insert_sorted(&mut out, e);
        proof {
            assert(views_of(out@).to_multiset().add(views_of(v@).to_multiset()) =~= opre
                .to_multiset().add(vpre.to_multiset()));
        }
    }
    proof {
        assert(views_of(v@).to_multiset() =~= Multiset::<EntryView>::empty());
        assert(views_of(out@).to_multiset().add(Multiset::<EntryView>::empty()) =~= views_of(
            out@,
        ).to_multiset());
    }
    *v = out;
}

/// Build the browsable listing of one directory from the raw entries read
/// off the disk: hidden entries are skipped, subdirectories come first and
/// audio files (by supported extension, matched case-insensitively) second,
/// each group sorted by name case-insensitively. Directory entries carry an
/// empty extension and size zero; file entries carry their size and their
/// lowercased extension.
fn partition_raw(raw: &Vec<RawEntry>) -> (r: (Vec<FileEntry>, Vec<FileEntry>))
    ensures
        views_of(r.0@) == raw_views(raw@).filter(keep_dir_fn()).map_values(dir_view_fn()),
        views_of(r.1@) == raw_views(raw@).filter(keep_file_fn()).map_values(file_view_fn()),
{
    let ghost raws = raw_views(raw@);
    let mut dirs: Vec<FileEntry> = Vec::new();
    let mut files: Vec<FileEntry> = Vec::new();
    let mut i: usize = 0;
    proof {
        reveal(Seq::filter);
        assert(raws.subrange(0, 0) =~= Seq::<RawView>::empty());
        assert(views_of(dirs@) =~= Seq::<EntryView>::empty());
        assert(views_of(files@) =~= Seq::<EntryView>::empty());
        assert(Seq::<RawView>::empty().filter(keep_dir_fn()).map_values(dir_view_fn()) =~= Seq::<
            EntryView,
        >::empty());
        assert(Seq::<RawView>::empty().filter(keep_file_fn()).map_values(file_view_fn()) =~= Seq::<
            EntryView,
        >::empty());
    }
    while i < raw.len()
        invariant
            i <= raw@.len(),
            raws == raw_views(raw@),
            views_of(dirs@) == raws.subrange(0, i as int).filter(keep_dir_fn()).map_values(
                dir_view_fn(),
            ),
            views_of(files@) == raws.subrange(0, i as int).filter(keep_file_fn()).map_values(
                file_view_fn(),
            ),
        decreases raw@.len() - i,
    {
        let ghost prefix = raws.subrange(0, i as int);
        let r = &raw[i];
        proof {
            assert(raws.subrange(0, i + 1) =~= prefix.push(r@));
            prefix.lemma_filter_push(r@, keep_dir_fn());
            prefix.lemma_filter_push(r@, keep_file_fn());
            assert(keep_dir_fn()(r@) == keep_dir(r@));
            assert(keep_file_fn()(r@) == keep_file(r@));
        }
        let hid = is_hidden(r.name.as_str());
        if !hid && r.is_directory {
            let ghost dpre = views_of(dirs@);
            dirs.push(
                FileEntry {
                    path: r.path.clone(),
                    name: r.name.clone(),
                    extension: String::new(),
                    size_bytes: 0,
                    is_directory: true,
                },
            );
            proof {
                assert(keep_dir(r@));
                assert(views_of(dirs@) =~= dpre.push(dir_view(r@)));
                assert(prefix.push(r@).filter(keep_dir_fn()).map_values(dir_view_fn())
                    =~= prefix.filter(keep_dir_fn()).map_values(dir_view_fn()).push(dir_view(r@)));
                assert(prefix.push(r@).filter(keep_file_fn()).map_values(file_view_fn())
                    =~= prefix.filter(keep_file_fn()).map_values(file_view_fn()));
            }
        } else if !hid {
            let ext_raw = extension_of(r.name.as_str());
            let ext = ascii_lower(ext_raw.as_str());
            if is_supported_extension(ext.as_str()) {
                let ghost fpre = views_of(files@);
                files.push(
                    FileEntry {
                        path: r.path.clone(),
                        name: r.name.clone(),
                        extension: ext,
                        size_bytes: r.size_bytes,
                        is_directory: false,
                    },
                );
                proof {
                    assert(keep_file(r@));
                    assert(views_of(files@) =~= fpre.push(file_view(r@)));
                    assert(prefix.push(r@).filter(keep_file_fn()).map_values(file_view_fn())
                        =~= prefix.filter(keep_file_fn()).map_values(file_view_fn()).push(
                        file_view(r@),
                    ));
                    assert(prefix.push(r@).filter(keep_dir_fn()).map_values(dir_view_fn())
                        =~= prefix.filter(keep_dir_fn()).map_values(dir_view_fn()));
                }
            } else {
                proof {
                    assert(!keep_dir(r@));
                    assert(!keep_file(r@));
                    assert(prefix.push(r@).filter(keep_dir_fn()).map_values(dir_view_fn())
                        =~= prefix.filter(keep_dir_fn()).map_values(dir_view_fn()));
                    assert(prefix.push(r@).filter(keep_file_fn()).map_values(file_view_fn())
                        =~= prefix.filter(keep_file_fn()).map_values(file_view_fn()));
                }
            }
        } else {
            proof {
                assert(!keep_dir(r@));
                assert(!keep_file(r@));
                assert(prefix.push(r@).filter(keep_dir_fn()).map_values(dir_view_fn())
                    =~= prefix.filter(keep_dir_fn()).map_values(dir_view_fn()));
                assert(prefix.push(r@).filter(keep_file_fn()).map_values(file_view_fn())
                    =~= prefix.filter(keep_file_fn()).map_values(file_view_fn()));
            }
        }
        i = i + 1;
    }
    proof {
        assert(raws.subrange(0, raw@.len() as int) =~= raws);
    }
    (dirs, files)
}

/// Build the browsable listing of one directory from the raw entries read
/// off the disk: hidden entries are skipped, subdirectories come first and
/// audio files (by supported extension, matched case-insensitively) second,
/// each group sorted by name case-insensitively. Directory entries carry an
/// empty extension and size zero; file entries carry their size and their
/// lowercased extension.
pub fn list_directory(root: &str, raw: &Vec<RawEntry>) -> (listing: DirListing)
    ensures
        ({
            let raws = raw_views(raw@);
            let dirs = raws.filter(keep_dir_fn()).map_values(dir_view_fn());
            let files = raws.filter(keep_file_fn()).map_values(file_view_fn());
            let out = views_of(listing.entries@);
            &&& listing.root@ == root@
            &&& out.len() == dirs.len() + files.len()
            &&& sorted_by(out.subrange(0, dirs.len() as int), entry_le_fn())
            &&& sorted_by(out.subrange(dirs.len() as int, out.len() as int), entry_le_fn())
            &&& out.subrange(0, dirs.len() as int).to_multiset() == dirs.to_multiset()
            &&& out.subrange(dirs.len() as int, out.len() as int).to_multiset()
                == files.to_multiset()
        }),
{
    broadcast use vstd::seq_lib::group_to_multiset_ensures;

    let (mut dirs, mut files) = partition_raw(raw);
    let ghost dirs_kept = views_of(dirs@);
    let ghost files_kept = views_of(files@);
    sort_entries(&mut dirs);
    sort_entries(&mut files);
    let ghost sorted_dirs = views_of(dirs@);
    let ghost sorted_files = views_of(files@);
    let ghost ndirs = dirs@.len() as int;
    proof {
        assert(sorted_dirs.to_multiset().len() == dirs_kept.to_multiset().len());
        assert(sorted_files.to_multiset().len() == files_kept.to_multiset().len());
        assert(sorted_dirs.len() == dirs_kept.len());
        assert(sorted_files.len() == files_kept.len());
    }
    let mut entries = dirs;
    entries.append(&mut files);
    proof {
        assert(views_of(entries@) =~= sorted_dirs + sorted_files);
        assert((sorted_dirs + sorted_files).subrange(0, ndirs) =~= sorted_dirs);
        assert((sorted_dirs + sorted_files).subrange(
            ndirs,
            (sorted_dirs + sorted_files).len() as int,
        ) =~= sorted_files);
    }
    DirListing { root: String::from_str(root), entries }
}

/// Whether `ext` is one of `extensions`, compared after ASCII lowercasing
/// of the candidates (the probe is already lowercased).
pub open spec fn matches_extension(ext: Seq<char>, extensions: Seq<Seq<char>>) -> bool {
    exists|k: int| 0 <= k < extensions.len() && ext == lower_seq(#[trigger] extensions[k])
}

/// Which raw entries a scan keeps: files whose lowercased extension is one
/// of the given extensions (matched case-insensitively).
pub open spec fn keep_scan(r: RawView, extensions: Seq<Seq<char>>) -> bool {
    &&& !r.is_directory
    &&& matches_extension(lower_seq(spec_extension(r.name)), extensions)
}

/// [`keep_scan`] for fixed extensions, as a predicate value.
pub open spec fn keep_scan_fn(extensions: Seq<Seq<char>>) -> spec_fn(RawView) -> bool {
    |r: RawView| keep_scan(r, extensions)
}

fn matches_extension_exec(ext: &String, extensions: &Vec<String>) -> (r: bool)
    ensures
        r == matches_extension(ext@, string_views(extensions@)),
{
    let ghost evs = string_views(extensions@);
    let mut k: usize = 0;
    while k < extensions.len()
        invariant
            k <= extensions@.len(),
            evs == string_views(extensions@),
            forall|j: int| 0 <= j < k ==> ext@ != lower_seq(#[trigger] evs[j]),
        decreases extensions@.len() - k,
    {
        let low = ascii_lower(extensions[k].as_str());
        if *ext == low {
            proof {
                assert(ext@ == lower_seq(evs[k as int]));
            }
            return true;
        }
        k = k + 1;
    }
    false
}

/// Scan one directory's raw entries for files with one of the given
/// extensions (matched case-insensitively): the kept files, sorted by name
/// case-insensitively, each carrying its size and lowercased extension.
/// Unlike a listing, a scan neither keeps directories nor skips hidden
/// files.
#[verifier::rlimit(100)]
#[verifier::spinoff_prover]
pub fn scan_directory(root: &str, raw: &Vec<RawEntry>, extensions: &Vec<String>) -> (result:
    ScanResult)
    ensures
        ({
            let raws = raw_views(raw@);
            let evs = string_views(extensions@);
            let kept = raws.filter(keep_scan_fn(evs)).map_values(file_view_fn());
            &&& result.root@ == root@
            &&& sorted_by(views_of(result.files@), entry_le_fn())
            &&& views_of(result.files@).to_multiset() == kept.to_multiset()
        }),
{
    let ghost raws = raw_views(raw@);
    let ghost evs = string_views(extensions@);
    let mut files: Vec<FileEntry> = Vec::new();
    let mut i: usize = 0;
    proof {
        reveal(Seq::filter);
        assert(raws.subrange(0, 0) =~= Seq::<RawView>::empty());
        assert(views_of(files@) =~= Seq::<EntryView>::empty());
        assert(Seq::<RawView>::empty().filter(keep_scan_fn(evs)).map_values(file_view_fn())
            =~= Seq::<EntryView>::empty());
    }
    while i < raw.len()
        invariant
            i <= raw@.len(),
            raws == raw_views(raw@),
            evs == string_views(extensions@),
            views_of(files@) == raws.subrange(0, i as int).filter(keep_scan_fn(evs)).map_values(
                file_view_fn(),
            ),
        decreases raw@.len() - i,
    {
        let ghost prefix = raws.subrange(0, i as int);
        let r = &raw[i];
        proof {
            assert(raws.subrange(0, i + 1) =~= prefix.push(r@));
            prefix.lemma_filter_push(r@, keep_scan_fn(evs));
            assert(keep_scan_fn(evs)(r@) == keep_scan(r@, evs));
        }
        let mut kept = false;
        if !r.is_directory {
            let ext_raw = extension_of(r.name.as_str());
            let ext = ascii_lower(ext_raw.as_str());
            if matches_extension_exec(&ext, extensions) {
                kept = true;
                let ghost fpre = views_of(files@);
                files.push(
                    FileEntry {
                        path: r.path.clone(),
                        name: r.name.clone(),
                        extension: ext,
                        size_bytes: r.size_bytes,
                        is_directory: false,
                    },
                );
                proof {
                    assert(keep_scan(r@, evs));
                    assert(views_of(files@) =~= fpre.push(file_view(r@)));
                    assert(prefix.push(r@).filter(keep_scan_fn(evs)).map_values(file_view_fn())
                        =~= prefix.filter(keep_scan_fn(evs)).map_values(file_view_fn()).push(
                        file_view(r@),
                    ));
                }
            }
        }
        if !kept {
            proof {
                assert(!keep_scan(r@, evs));
                assert(prefix.push(r@).filter(keep_scan_fn(evs)).map_values(file_view_fn())
                    =~= prefix.filter(keep_scan_fn(evs)).map_values(file_view_fn()));
            }
        }
        i = i + 1;
    }
    proof {
        assert(raws.subrange(0, raw@.len() as int) =~= raws);
    }
    sort_entries(&mut files);
    ScanResult { root: String::from_str(root), files }
}

} // verus!
