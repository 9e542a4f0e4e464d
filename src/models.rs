use vstd::prelude::*;

verus! {

/// The category that a file's extension puts it in.
#[allow(non_camel_case_types)]
#[derive(Clone, Copy, Debug, PartialEq, Eq, Structural)]
pub enum FileTypes {
    DOCUMENT,
    IMAGE,
    VIDEO,
}

/// The kinds of media, which pick a file-name prefix and a destination tree.
#[allow(non_camel_case_types)]
#[derive(Clone, Copy, Debug, PartialEq, Eq, Structural)]
pub enum MediaType {
    IMAGE,
    VIDEO,
}

#[derive(Clone, Copy, Debug, PartialEq, Eq, Structural)]
pub enum Action {
    Copy,
    Delete,
    Move,
}

/// The directories of one run and the table from lower-case extension to
/// category.
pub struct Config {
    pub source_dir: String,
    pub doc_dir: String,
    pub image_dir: String,
    pub video_dir: String,
    pub file_exts: Vec<(String, FileTypes)>,
}

/// The quarantine directory beside a media directory, for files without a date.
pub open spec fn temp_dir(dir: Seq<char>) -> Seq<char> {
    dir + "_temp"@
}

/// The category of the first entry of `table` from `i` on whose extension is `ext`.
pub open spec fn category_in(table: Seq<(String, FileTypes)>, ext: Seq<char>, i: int) -> Option<FileTypes>
    decreases table.len() - i,
{
    if i < 0 || i >= table.len() {
        None
    } else if table[i].0@ == ext {
        Some(table[i].1)
    } else {
        category_in(table, ext, i + 1)
    }
}

impl Config {
    /// The category that the table gives a lower-case extension.
    pub open spec fn category(&self, ext: Seq<char>) -> Option<FileTypes> {
        category_in(self.file_exts@, ext, 0)
    }

    pub fn file_type(&self, ext: &String) -> (r: Option<FileTypes>)
        ensures
            r == self.category(ext@),
    {
        let mut i: usize = 0;
        while i < self.file_exts.len()
            invariant
                i <= self.file_exts@.len(),
                category_in(self.file_exts@, ext@, i as int) == self.category(ext@),
            decreases self.file_exts@.len() - i,
        {
            if self.file_exts[i].0 == *ext {
                return Some(self.file_exts[i].1);
            }
            i = i + 1;
        }
        None
    }

    /// Every destination tree: documents, images, images without a date,
    /// videos, videos without a date.
    pub fn get_destination_folders(&self) -> (r: Vec<String>)
        ensures
            r@.map_values(|s: String| s@) == seq![
                self.doc_dir@,
                self.image_dir@,
                temp_dir(self.image_dir@),
                self.video_dir@,
                temp_dir(self.video_dir@),
            ],
    {
        let r = vec![
            self.doc_dir.clone(),
            self.image_dir.clone(),
            self.image_dir.clone().concat("_temp"),
            self.video_dir.clone(),
            self.video_dir.clone().concat("_temp"),
        ];
        assert(r@.map_values(|s: String| s@) =~= seq![
            self.doc_dir@,
            self.image_dir@,
            temp_dir(self.image_dir@),
            self.video_dir@,
            temp_dir(self.video_dir@),
        ]);
        r
    }
}

} // verus!
