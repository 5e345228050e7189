use vstd::prelude::*;
use crate::error::IngestError;
use crate::paginate::{pages, split_into_pages, WORDS_PER_PAGE};

verus! {

/// A titled text cut into pages.
#[derive(Debug, Clone)]
pub struct Document {
    pub title: String,
    pub pages: Vec<String>,
}

impl Document {
    /// The pages' texts.
    pub open spec fn page_texts(&self) -> Seq<Seq<char>> {
        self.pages@.map_values(|p: String| p@)
    }
}

/// What a named part of an upload contributes.
#[derive(Debug, Clone, Copy, PartialEq, Eq)]
pub enum PartKind {
    Title,
    File,
    Other,
}

/// The role of an upload part by its name.
pub open spec fn part_kind_of(name: Seq<char>) -> PartKind {
    if name == "title"@ {
        PartKind::Title
    } else if name == "file"@ {
        PartKind::File
    } else {
        PartKind::Other
    }
}

/// Tells what the upload part named `name` contributes.
pub fn part_kind(name: &String) -> (r: PartKind)
    ensures
        r == part_kind_of(name@),
{
    let title = String::from_str("title");
    let file = String::from_str("file");
    if *name == title {
        PartKind::Title
    } else if *name == file {
        PartKind::File
    } else {
        PartKind::Other
    }
}

/// The title of an upload that names none.
pub open spec fn default_title() -> Seq<char> {
    "Untitled"@
}

/// A part of an upload, as the flow uses it.
#[derive(Debug)]
pub enum UploadPart {
    /// A title part and its text.
    Title(String),
    /// A file part: the text extracted from its bytes, or why extraction failed.
    File(Result<String, String>),
    /// A part of any other name.
    Other,
}

/// The title and the pages' texts of an upload.
pub struct UploadView {
    pub title: Seq<char>,
    pub pages: Seq<Seq<char>>,
}

/// An upload before any part.
pub open spec fn upload_start() -> UploadView {
    UploadView { title: default_title(), pages: seq![] }
}

/// The upload after one more part, or `None` where the part ends it in failure:
/// a title replaces the title, a file replaces the pages by its text's pages,
/// a file that could not be read fails, and any other part changes nothing.
pub open spec fn upload_step(v: UploadView, part: UploadPart) -> Option<UploadView> {
    match part {
        UploadPart::Title(t) => Some(UploadView { title: t@, pages: v.pages }),
        UploadPart::File(Ok(text)) => Some(
            UploadView { title: v.title, pages: pages(text@, WORDS_PER_PAGE as nat) },
        ),
        UploadPart::File(Err(_)) => None,
        UploadPart::Other => Some(v),
    }
}

/// The upload after all of `parts`, in order, or `None` where one of them fails.
pub open spec fn upload_run(parts: Seq<UploadPart>) -> Option<UploadView>
    decreases parts.len(),
{
    if parts.len() == 0 {
        Some(upload_start())
    } else {
        match upload_run(parts.drop_last()) {
            Some(v) => upload_step(v, parts.last()),
            None => None,
        }
    }
}

/// Once a part has failed, the upload stays failed whatever follows.
proof fn lemma_failure_stays(parts: Seq<UploadPart>, i: int)
    requires
        0 <= i <= parts.len(),
        upload_run(parts.take(i)) is None,
    ensures
        upload_run(parts) is None,
    decreases parts.len() - i,
{
    if i < parts.len() {
        assert(parts.take(i + 1).drop_last() =~= parts.take(i));
        lemma_failure_stays(parts, i + 1);
    } else {
        assert(parts.take(i) =~= parts);
    }
}

/// An upload of title parts alone, at least one, has the last one's text as its
/// title and no pages.
pub proof fn lemma_titles_only(parts: Seq<UploadPart>)
    requires
        parts.len() > 0,
        forall|k: int| 0 <= k < parts.len() ==> #[trigger] parts[k] is Title,
    ensures
        upload_run(parts) == Some(
            UploadView { title: parts.last()->Title_0@, pages: seq![] },
        ),
    decreases parts.len(),
{
    let d = parts.drop_last();
    if d.len() > 0 {
        assert forall|k: int| 0 <= k < d.len() implies #[trigger] d[k] is Title by {
            assert(d[k] == parts[k]);
        }
        lemma_titles_only(d);
    }
    assert(parts[parts.len() - 1] is Title);
    let v = upload_run(d)->Some_0;
    assert(upload_run(d) is Some);
    assert(v.pages =~= Seq::<Seq<char>>::empty());
    assert(upload_run(parts) == upload_step(v, parts.last()));
}

/// An upload in progress: the parts seen so far, in any order.
#[derive(Debug, Clone)]
pub struct UploadState {
    pub title: String,
    pub pages: Vec<String>,
}

impl UploadState {
    /// The pages' texts.
    pub open spec fn page_texts(&self) -> Seq<Seq<char>> {
        self.pages@.map_values(|p: String| p@)
    }

    /// An upload before any part: the default title and no pages.
    pub fn new() -> (r: UploadState)
        ensures
            r.title@ == default_title(),
            r.page_texts().len() == 0,
    {
        let r = UploadState { title: String::from_str("Untitled"), pages: Vec::new() };
        assert(r.page_texts() =~= Seq::<Seq<char>>::empty());
        r
    }

    /// A title part: replaces the title.
    pub fn on_title(&mut self, text: String)
        ensures
            final(self).title@ == text@,
            final(self).pages@ == old(self).pages@,
    {
        self.title = text;
    }

    /// The text of a file part: replaces the pages by the text's pages.
    pub fn on_text(&mut self, text: &str)
        ensures
            final(self).title@ == old(self).title@,
            final(self).page_texts() == pages(text@, WORDS_PER_PAGE as nat),
    {
        self.pages = split_into_pages(text);
    }

    /// What the upload holds so far: its title and its pages' texts.
    pub open spec fn view(&self) -> UploadView {
        UploadView { title: self.title@, pages: self.page_texts() }
    }

    /// One part of the upload: see `upload_step`. Where the part is a file
    /// that could not be read, the upload is left as it was.
    pub fn on_part(&mut self, part: &UploadPart) -> (r: Result<(), IngestError>)
        ensures
            r is Ok <==> upload_step(old(self).view(), *part) is Some,
            r is Ok ==> final(self).view() == upload_step(old(self).view(), *part)->Some_0,
            r is Err ==> r->Err_0 is Extraction && final(self).view() == old(self).view(),
    {
        match part {
            UploadPart::Title(t) => {
                self.on_title(t.clone());
                Ok(())
            },
            UploadPart::File(Ok(text)) => {
                self.on_text(text.as_str());
                Ok(())
            },
            UploadPart::File(Err(m)) => Err(IngestError::Extraction(m.clone())),
            UploadPart::Other => Ok(()),
        }
    }

    /// The finished upload as a document.
    pub fn finish(self) -> (r: Document)
        ensures
            r.title@ == self.title@,
            r.pages@ == self.pages@,
    {
        Document { title: self.title, pages: self.pages }
    }
}


/// Runs an upload over its parts, in order, and returns the document, or the
/// first file part's failure.
pub fn upload_document(parts: &Vec<UploadPart>) -> (r: Result<Document, IngestError>)
    ensures
        r is Ok <==> upload_run(parts@) is Some,
        r is Ok ==> r->Ok_0.title@ == upload_run(parts@)->Some_0.title
            && r->Ok_0.page_texts() == upload_run(parts@)->Some_0.pages,
        r is Err ==> r->Err_0 is Extraction,
{
    let mut state = UploadState::new();
    assert(state.view().pages =~= upload_start().pages);
    assert(parts@.take(0) =~= Seq::<UploadPart>::empty());
    for i in 0..parts.len()
        invariant
            upload_run(parts@.take(i as int)) == Some(state.view()),
    {
        assert(parts@.take(i + 1).drop_last() =~= parts@.take(i as int));
        match state.on_part(&parts[i]) {
            Ok(()) => {},
            Err(e) => {
                proof {
                    lemma_failure_stays(parts@, i + 1);
                }
                return Err(e);
            },
        }
    }
    assert(parts@.take(parts.len() as int) =~= parts@);
    Ok(state.finish())
}

} // verus!
