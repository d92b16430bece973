//! The entries of an FMU, which is a ZIP archive: their names, and what
//! extracting it writes.
use std::io::{Cursor, Read};
use vstd::prelude::*;

use crate::text::owned;

verus! {

/// An entry of a ZIP archive: its name, its name as a safe relative path (none
/// where the name is unsafe or cannot be read), and its contents.
#[derive(Debug)]
pub struct ZipEntry {
    pub name: Result<String, String>,
    pub enclosed_name: Option<String>,
    pub contents: Result<Vec<u8>, String>,
}

/// The view of a text result.
pub open spec fn text_view(r: Result<String, String>) -> Result<Seq<char>, Seq<char>> {
    match r {
        Ok(s) => Ok(s@),
        Err(e) => Err(e@),
    }
}

/// The view of an optional text.
pub open spec fn option_view(o: Option<String>) -> Option<Seq<char>> {
    match o {
        Some(s) => Some(s@),
        None => None,
    }
}

/// The view of a bytes result.
pub open spec fn bytes_view(r: Result<Vec<u8>, String>) -> Result<Seq<u8>, Seq<char>> {
    match r {
        Ok(b) => Ok(b@),
        Err(e) => Err(e@),
    }
}

/// The view of an entry, or of the error of getting it.
pub open spec fn entry_view(r: Result<ZipEntry, String>) -> Result<
    (Result<Seq<char>, Seq<char>>, Option<Seq<char>>, Result<Seq<u8>, Seq<char>>),
    Seq<char>,
> {
    match r {
        Ok(e) => Ok((text_view(e.name), option_view(e.enclosed_name), bytes_view(e.contents))),
        Err(m) => Err(m@),
    }
}

/// What `zip::ZipArchive` reads from the bytes of an archive: the error of
/// opening it, or, for each entry in order, the error of getting it by its index,
/// or its name, its enclosed name and its contents read to the end (or the error of
/// reading them).
pub uninterp spec fn zip_entries(bytes: Seq<u8>) -> Result<
    Seq<
        Result<
            (Result<Seq<char>, Seq<char>>, Option<Seq<char>>, Result<Seq<u8>, Seq<char>>),
            Seq<char>,
        >,
    >,
    Seq<char>,
>;

/// Opens the archive `bytes` with `zip::ZipArchive::new` and, for each index,
/// gets the entry with `by_index` and reads its `name`, its `enclosed_name` and
/// its contents. The contract claims that the result is a function of the bytes
/// alone, named `zip_entries`; what the entries hold is not stated.
#[verifier::external_body]
fn read_zip(bytes: &[u8]) -> (res: Result<Vec<Result<ZipEntry, String>>, String>)
    ensures
        match res {
            Ok(es) => zip_entries(bytes@) matches Ok(s) && s == es@.map_values(
                |r: Result<ZipEntry, String>| entry_view(r),
            ),
            Err(e) => zip_entries(bytes@) matches Err(m) && m == e@,
        },
{
    let mut archive = zip::ZipArchive::new(Cursor::new(bytes)).map_err(|e| e.to_string())?;
    Ok((0..archive.len()).map(|i| match archive.by_index(i) {
        Ok(mut file) => Ok(ZipEntry {
            name: file.name().map(|n| n.to_string()).map_err(|e| e.to_string()),
            enclosed_name: file.enclosed_name().map(|p| p.to_string_lossy().into_owned()),
            contents: { let mut v = Vec::new(); file.read_to_end(&mut v).map(|_| v).map_err(|e| e.to_string()) },
        }),
        Err(e) => Err(e.to_string()),
    }).collect())
}

/// The view of an entry, or of the error of getting it.
pub type EntryView = Result<
    (Result<Seq<char>, Seq<char>>, Option<Seq<char>>, Result<Seq<u8>, Seq<char>>),
    Seq<char>,
>;

// ---------------------------------------------------------------------------
// The names of the entries
// ---------------------------------------------------------------------------
/// The enclosed names of the first `n` entries `es`, in order and skipping the
/// entries that have none; or the error of the first entry that could not be got.
pub open spec fn names_upto(es: Seq<EntryView>, n: nat) -> Result<Seq<Seq<char>>, Seq<char>>
    decreases n,
{
    if n == 0 {
        Ok(seq![])
    } else {
        match names_upto(es, (n - 1) as nat) {
            Err(e) => Err(e),
            Ok(ns) => match es[n - 1] {
                Err(e) => Err(e),
                Ok(entry) => match entry.1 {
                    Some(name) => Ok(ns.push(name)),
                    None => Ok(ns),
                },
            },
        }
    }
}

/// The enclosed names of the entries of the archive `bytes`, or why they cannot be
/// listed.
pub open spec fn spec_zip_entry_names(bytes: Seq<u8>) -> Result<Seq<Seq<char>>, Seq<char>> {
    match zip_entries(bytes) {
        Err(e) => Err(e),
        Ok(es) => names_upto(es, es.len()),
    }
}

/// The entries of the ZIP archive `bytes`: their enclosed names, in the order of
/// the archive, skipping the entries that have none.
pub fn zip_entry_names(bytes: &[u8]) -> (res: Result<Vec<String>, String>)
    ensures
        match res {
            Ok(ns) => spec_zip_entry_names(bytes@) matches Ok(v) && v == ns@.map_values(
                |n: String| n@,
            ),
            Err(e) => spec_zip_entry_names(bytes@) matches Err(m) && m == e@,
        },
{
    let entries = read_zip(bytes)?;
    let ghost es = entries@.map_values(|r: Result<ZipEntry, String>| entry_view(r));
    let mut names: Vec<String> = Vec::new();
    assert(names@.map_values(|n: String| n@) =~= Seq::<Seq<char>>::empty());
    for r in it: entries.into_iter()
        invariant
            it.seq() == entries@,
            es == entries@.map_values(|r: Result<ZipEntry, String>| entry_view(r)),
            zip_entries(bytes@) == Ok::<Seq<EntryView>, Seq<char>>(es),
            names_upto(es, it.index() as nat) == Ok::<Seq<Seq<char>>, Seq<char>>(
                names@.map_values(|n: String| n@),
            ),
    {
        let ghost k = it.index();
        assert(entry_view(r) == es[k as int]);
        match r {
            Err(e) => {
                proof {
                    lemma_names_stay(es, (k + 1) as nat, es.len());
                }
                return Err(e);
            },
            Ok(entry) => {
                if let Some(name) = entry.enclosed_name {
                    let ghost before = names@;
                    names.push(name);
                    proof {
                        assert(names@.map_values(|n: String| n@) =~= before.map_values(
                            |n: String| n@,
                        ).push(names@.last()@));
                    }
                }
            },
        }
    }
    Ok(names)
}

/// Once an entry cannot be got, later entries change nothing.
proof fn lemma_names_stay(es: Seq<EntryView>, n: nat, m: nat)
    requires
        n <= m,
        names_upto(es, n) is Err,
    ensures
        names_upto(es, m) == names_upto(es, n),
    decreases m - n,
{
    if n < m {
        lemma_names_stay(es, n, (m - 1) as nat);
    }
}

// ---------------------------------------------------------------------------
// Extracting an archive
// ---------------------------------------------------------------------------
/// A step of extracting an archive: a directory to create, or a file to write
/// with the contents of its entry (or the error of reading them).
#[derive(Debug)]
pub struct ExtractStep {
    pub path: String,
    pub is_dir: bool,
    pub contents: Result<Vec<u8>, String>,
}

/// The view of a step.
pub open spec fn step_view(s: ExtractStep) -> (Seq<char>, bool, Result<Seq<u8>, Seq<char>>) {
    (s.path@, s.is_dir, bytes_view(s.contents))
}

/// Whether an entry name names a directory: it ends with `/`.
pub open spec fn names_directory(name: Seq<char>) -> bool {
    name.len() > 0 && name.last() == '/'
}

/// The steps of extracting the first `n` entries `es`, in order, and the error
/// that stops the extraction, if any: an entry that cannot be got, or whose name
/// cannot be read. Entries without an enclosed name are skipped.
pub open spec fn steps_upto(es: Seq<EntryView>, n: nat) -> (
    Seq<(Seq<char>, bool, Result<Seq<u8>, Seq<char>>)>,
    Option<Seq<char>>,
)
    decreases n,
{
    if n == 0 {
        (seq![], None)
    } else {
        let (ss, err) = steps_upto(es, (n - 1) as nat);
        if err is Some {
            (ss, err)
        } else {
            match es[n - 1] {
                Err(e) => (ss, Some(e)),
                Ok(entry) => match entry.1 {
                    None => (ss, None),
                    Some(path) => match entry.0 {
                        Err(e) => (ss, Some(e)),
                        Ok(name) => (ss.push((path, names_directory(name), entry.2)), None),
                    },
                },
            }
        }
    }
}

/// What extracting the ZIP archive `bytes` does: the directories to create and
/// the files to write, in the order of the archive, then the error that stops it,
/// if any; or the error of opening the archive.
pub fn zip_extraction(bytes: &[u8]) -> (res: Result<(Vec<ExtractStep>, Option<String>), String>)
    ensures
        match res {
            Ok((ss, err)) => zip_entries(bytes@) matches Ok(es) && steps_upto(es, es.len()) == (
                ss@.map_values(|s: ExtractStep| step_view(s)),
                option_view(err),
            ),
            Err(e) => zip_entries(bytes@) matches Err(m) && m == e@,
        },
{
    let entries = read_zip(bytes)?;
    let ghost es = entries@.map_values(|r: Result<ZipEntry, String>| entry_view(r));
    let mut steps: Vec<ExtractStep> = Vec::new();
    for r in it: entries.into_iter()
        invariant
            it.seq() == entries@,
            es == entries@.map_values(|r: Result<ZipEntry, String>| entry_view(r)),
            zip_entries(bytes@) == Ok::<Seq<EntryView>, Seq<char>>(es),
            steps_upto(es, it.index() as nat) == (
                steps@.map_values(|s: ExtractStep| step_view(s)),
                None::<Seq<char>>,
            ),
    {
        let ghost k = it.index();
        assert(entry_view(r) == es[k as int]);
        match r {
            Err(e) => {
                proof {
                    lemma_steps_stay(es, (k + 1) as nat, es.len());
                }
                return Ok((steps, Some(e)));
            },
            Ok(entry) => {
                if let Some(path) = entry.enclosed_name {
                    match entry.name {
                        Err(e) => {
                            proof {
                                lemma_steps_stay(es, (k + 1) as nat, es.len());
                            }
                            return Ok((steps, Some(e)));
                        },
                        Ok(name) => {
                            let is_dir = ends_with_slash(&name);
                            let ghost before = steps@;
                            steps.push(ExtractStep { path, is_dir, contents: entry.contents });
                            proof {
                                assert(steps@.map_values(|s: ExtractStep| step_view(s))
                                    =~= before.map_values(|s: ExtractStep| step_view(s)).push(
                                    step_view(steps@.last()),
                                ));
                            }
                        },
                    }
                }
            },
        }
    }
    Ok((steps, None))
}

/// Once an error stops the extraction, later entries change nothing.
proof fn lemma_steps_stay(es: Seq<EntryView>, n: nat, m: nat)
    requires
        n <= m,
        steps_upto(es, n).1 is Some,
    ensures
        steps_upto(es, m) == steps_upto(es, n),
    decreases m - n,
{
    if n < m {
        lemma_steps_stay(es, n, (m - 1) as nat);
    }
}

/// Whether `name` ends with `/`.
fn ends_with_slash(name: &String) -> (res: bool)
    ensures
        res == names_directory(name@),
{
    let cs = crate::text::chars_of(name.as_str());
    cs.len() > 0 && cs[cs.len() - 1] == '/'
}

} // verus!
