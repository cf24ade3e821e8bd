//! The single shared session record: configuration fixed at startup, the
//! two text notes, the ordered download catalog and the most recent upload
//! outcome. The desktop side edits the offered note and the catalog; the
//! server side edits the received note and the upload outcome. The storage
//! itself tolerates reads from either side at any time; callers keep it
//! behind one mutual-exclusion guard and hold that guard only to copy
//! scalar fields in or out, never across file or network work.

use vstd::prelude::*;
use crate::catalog::{get_filename, spec_display_name};
use crate::numbers::{dec_val, is_digits, parse_uint, strip_plus};

verus! {

/// What the desktop window shows about the most recent upload: the stored
/// filename when one was accepted, or a truncation marker when the size
/// cap cut an attempt short.
#[derive(Debug, PartialEq)]
pub struct UploadOutcome {
    pub filename: Option<String>,
    pub truncated: bool,
}

/// The shared session record. One instance lives for the whole process.
pub struct FileSender {
    /// Fallback name for uploads whose proposed filename is absent or
    /// rejected. Written once at startup.
    pub upload_file_name: String,
    /// Hard cap on accepted upload bodies, in bytes. Written once at
    /// startup.
    pub upload_file_size: usize,
    /// Last text a peer pushed to the server; mirrored into the window,
    /// never into the served page.
    pub upload_text: String,
    /// Text the local user offers; substituted into the served page.
    pub download_text: String,
    /// Paths offered for download; insertion order defines the index in
    /// the download URL.
    pub download_files: Vec<String>,
    /// Most recent upload outcome, for the window's status line.
    pub last_upload: Option<UploadOutcome>,
}

impl FileSender {
    /// A fresh session: both notes empty, no files offered, no upload yet.
    pub fn new(upload_file_name: String, upload_file_size: usize) -> (fs: FileSender)
        ensures
            fs.upload_file_name == upload_file_name,
            fs.upload_file_size == upload_file_size,
            fs.upload_text@ == Seq::<char>::empty(),
            fs.download_text@ == Seq::<char>::empty(),
            fs.download_files@ == Seq::<String>::empty(),
            fs.last_upload is None,
    {
        FileSender {
            upload_file_name,
            upload_file_size,
            upload_text: String::new(),
            download_text: String::new(),
            download_files: Vec::new(),
            last_upload: None,
        }
    }

    /// The local user edited the offered note.
    pub fn set_download_text(&mut self, text: String)
        ensures
            final(self).download_text == text,
            final(self).upload_file_name == old(self).upload_file_name,
            final(self).upload_file_size == old(self).upload_file_size,
            final(self).upload_text == old(self).upload_text,
            final(self).download_files == old(self).download_files,
            final(self).last_upload == old(self).last_upload,
    {
        self.download_text = text;
    }

    /// A peer posted a text note; only the received slot changes.
    pub fn set_upload_text(&mut self, text: String)
        ensures
            final(self).upload_text == text,
            final(self).upload_file_name == old(self).upload_file_name,
            final(self).upload_file_size == old(self).upload_file_size,
            final(self).download_text == old(self).download_text,
            final(self).download_files == old(self).download_files,
            final(self).last_upload == old(self).last_upload,
    {
        self.upload_text = text;
    }

    /// Records the outcome of the latest upload attempt.
    pub fn set_last_upload(&mut self, filename: Option<String>, truncated: bool)
        ensures
            final(self).last_upload matches Some(o) && o.filename == filename && o.truncated
                == truncated,
            final(self).upload_file_name == old(self).upload_file_name,
            final(self).upload_file_size == old(self).upload_file_size,
            final(self).upload_text == old(self).upload_text,
            final(self).download_text == old(self).download_text,
            final(self).download_files == old(self).download_files,
    {
        self.last_upload = Some(UploadOutcome { filename, truncated });
    }

    /// Offers more files for download, keeping the existing order and
    /// appending the new paths behind it.
    pub fn add_download_files(&mut self, paths: Vec<String>)
        ensures
            final(self).download_files@ == old(self).download_files@ + paths@,
            final(self).upload_file_name == old(self).upload_file_name,
            final(self).upload_file_size == old(self).upload_file_size,
            final(self).upload_text == old(self).upload_text,
            final(self).download_text == old(self).download_text,
            final(self).last_upload == old(self).last_upload,
    {
        let mut paths = paths;
        self.download_files.append(&mut paths);
    }

    /// Withdraws the entry at `index`. Every later entry shifts down by
    /// one; an out-of-range index changes nothing and reports `None`.
    pub fn remove_download_file(&mut self, index: usize) -> (r: Option<String>)
        ensures
            index < old(self).download_files@.len() ==> r == Some(
                old(self).download_files@[index as int],
            ) && final(self).download_files@ == old(self).download_files@.remove(index as int),
            index >= old(self).download_files@.len() ==> r is None && final(self).download_files@
                == old(self).download_files@,
            final(self).upload_file_name == old(self).upload_file_name,
            final(self).upload_file_size == old(self).upload_file_size,
            final(self).upload_text == old(self).upload_text,
            final(self).download_text == old(self).download_text,
            final(self).last_upload == old(self).last_upload,
    {
        if index < self.download_files.len() {
            Some(self.download_files.remove(index))
        } else {
            None
        }
    }

    /// How many files are currently offered.
    pub fn download_count(&self) -> (n: usize)
        ensures
            n == self.download_files@.len(),
    {
        self.download_files.len()
    }

    /// Bounds-checked catalog access: the stored path and the display
    /// name served to peers. Out-of-range indices report `None`.
    pub fn get_download(&self, index: usize) -> (r: Option<(String, String)>)
        ensures
            index < self.download_files@.len() ==> (r matches Some(p)
                && p.0 == self.download_files@[index as int]
                && p.1@ == spec_display_name(self.download_files@[index as int]@)),
            index >= self.download_files@.len() ==> r is None,
    {
        if index < self.download_files.len() {
            let path = self.download_files[index].clone();
            let name = get_filename(path.as_str());
            Some((path, name))
        } else {
            None
        }
    }

    /// The display names of all offered files, in catalog order.
    pub fn list_download_names(&self) -> (names: Vec<String>)
        ensures
            names@.len() == self.download_files@.len(),
            forall|i: int|
                0 <= i < names@.len() ==> names@[i]@ == spec_display_name(
                    #[trigger] self.download_files@[i]@,
                ),
    {
        let mut names: Vec<String> = Vec::new();
        let mut i: usize = 0;
        let n = self.download_files.len();
        while i < n
            invariant
                i <= n,
                n == self.download_files@.len(),
                names@.len() == i,
                forall|j: int|
                    0 <= j < i ==> names@[j]@ == spec_display_name(
                        #[trigger] self.download_files@[j]@,
                    ),
            decreases n - i,
        {
            names.push(get_filename(self.download_files[i].as_str()));
            i = i + 1;
        }
        names
    }

    /// Resolves the `<index>` segment of a download URL. Reports an entry
    /// exactly when the segment is a decimal numeral, read as std reads
    /// an unsigned integer (one leading `+` allowed), naming an existing
    /// index: anything else (a minus sign, letters, emptiness) or an
    /// out-of-range value is `None`, never a failure.
    pub fn lookup_download(&self, segment: &str) -> (r: Option<(String, String)>)
        ensures
            r is Some <==> (strip_plus(segment@).len() > 0 && is_digits(strip_plus(segment@))
                && dec_val(strip_plus(segment@)) < self.download_files@.len()),
            r matches Some(p) ==> p.0 == self.download_files@[dec_val(
                strip_plus(segment@),
            ) as int] && p.1@ == spec_display_name(p.0@),
    {
        let count = self.download_files.len();
        proof {
            assert(self.download_files@.len() == count);
        }
        match parse_uint(segment, usize::MAX) {
            Some(index) => self.get_download(index),
            None => None,
        }
    }
}

} // verus!
