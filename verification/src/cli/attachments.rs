//! Prompt blocks taken apart into texts and files. Images that are not files yet
//! are to be written under the working directory, named by their content.
use vstd::prelude::*;
use crate::cli::driver;
use crate::cli::outcome::{CliTurnError, ErrorView};
use crate::cli::prompt::{BlockView, PromptInputBlock};
use crate::digest;
use crate::paths;
use crate::text;

verus! {

/// Where images land, relative to the working directory.
pub const ATTACHMENT_DIR: &'static str = ".codeg/attachments";

/// A file to be written, unless it is there already.
#[derive(Debug)]
pub struct AttachmentWrite {
    pub dir: String,
    pub path: String,
    pub bytes: Vec<u8>,
}

/// The content of an `AttachmentWrite`.
#[verifier::ext_equal]
pub struct WriteView {
    pub dir: Seq<char>,
    pub path: Seq<char>,
    pub bytes: Seq<u8>,
}

impl View for AttachmentWrite {
    type V = WriteView;

    open spec fn view(&self) -> WriteView {
        WriteView { dir: self.dir@, path: self.path@, bytes: self.bytes@ }
    }
}

impl DeepView for AttachmentWrite {
    type V = WriteView;

    open spec fn deep_view(&self) -> WriteView {
        self@
    }
}

/// A piece of a prompt: a text, or the path of a file.
#[derive(Debug)]
pub enum Piece {
    Text(String),
    File(String),
}

/// The content of a `Piece`.
#[verifier::ext_equal]
pub enum PieceView {
    Text(Seq<char>),
    File(Seq<char>),
}

impl View for Piece {
    type V = PieceView;

    open spec fn view(&self) -> PieceView {
        match *self {
            Piece::Text(s) => PieceView::Text(s@),
            Piece::File(s) => PieceView::File(s@),
        }
    }
}

impl DeepView for Piece {
    type V = PieceView;

    open spec fn deep_view(&self) -> PieceView {
        self@
    }
}

/// The absolute path of a `file://` address.
pub open spec fn upload_path(uri: Option<Seq<char>>) -> Option<Seq<char>> {
    match uri {
        Some(u) => match text::without_prefix(u, "file://"@) {
            Some(p) => if paths::absolute(p) {
                Some(p)
            } else {
                None
            },
            None => None,
        },
        None => None,
    }
}

/// The ending of the name of an image file.
pub open spec fn extension(mime_type: Seq<char>) -> Seq<char> {
    let m = text::lower(mime_type);
    if m == "image/png"@ {
        "png"@
    } else if m == "image/jpeg"@ || m == "image/jpg"@ {
        "jpg"@
    } else if m == "image/gif"@ {
        "gif"@
    } else if m == "image/webp"@ {
        "webp"@
    } else if m == "image/svg+xml"@ {
        "svg"@
    } else {
        "bin"@
    }
}

/// The error for a request that makes no sense.
pub open spec fn invalid(message: Seq<char>) -> ErrorView {
    ErrorView { code: "invalid_params"@, message, details: None }
}

/// The file that holds the bytes of an image.
pub open spec fn write_of(working_dir: Seq<char>, bytes: Seq<u8>, mime_type: Seq<char>) -> WriteView {
    let dir = paths::below(working_dir, ATTACHMENT_DIR@);
    WriteView {
        dir,
        path: paths::below(
            dir,
            digest::hex(digest::sha256_digest(bytes).take(8)) + "."@ + extension(mime_type),
        ),
        bytes,
    }
}

/// Where an image is found, and what has to be written for that. An upload that
/// exists is used in place; anything else is decoded.
pub open spec fn attached(
    working_dir: Seq<char>,
    data: Seq<char>,
    mime_type: Seq<char>,
    uri: Option<Seq<char>>,
    exists_as_file: bool,
) -> Result<(Seq<char>, Option<WriteView>), ErrorView> {
    if upload_path(uri) is Some && exists_as_file {
        Ok((upload_path(uri)->0, None))
    } else {
        match digest::base64_decoded(text::trim(data)) {
            Ok(bytes) => {
                let w = write_of(working_dir, bytes, mime_type);
                Ok((w.path, Some(w)))
            },
            Err(e) => Err(invalid("image attachment is not valid base64: "@ + e)),
        }
    }
}

/// The absolute path of a `file://` address; whether it is a file decides how
/// `attachment_path` goes on.
pub fn local_upload(uri: Option<&str>) -> (r: Option<String>)
    ensures
        r.deep_view() == upload_path(uri.deep_view()),
{
    match uri {
        Some(u) => match text::strip_prefix(u, "file://") {
            Some(p) => if paths::is_absolute(p.as_str()) {
                Some(p)
            } else {
                None
            },
            None => None,
        },
        None => None,
    }
}

/// The ending of the name of an image file.
pub fn extension_for(mime_type: &str) -> (r: &'static str)
    ensures
        r@ == extension(mime_type@),
{
    let m = text::to_lower(mime_type);
    let m = m.as_str();
    if text::same(m, "image/png") {
        "png"
    } else if text::same(m, "image/jpeg") || text::same(m, "image/jpg") {
        "jpg"
    } else if text::same(m, "image/gif") {
        "gif"
    } else if text::same(m, "image/webp") {
        "webp"
    } else if text::same(m, "image/svg+xml") {
        "svg"
    } else {
        "bin"
    }
}

/// The file that holds the bytes of an image.
fn place(working_dir: &str, bytes: Vec<u8>, mime_type: &str) -> (r: AttachmentWrite)
    ensures
        r@ == write_of(working_dir@, bytes@, mime_type@),
{
    let digest = digest::sha256(bytes.as_slice());
    let stem = digest::to_hex(&digest, 8);
    let dir = paths::join(working_dir, ATTACHMENT_DIR);
    let name = text::cat3(stem.as_str(), ".", extension_for(mime_type));
    let path = paths::join(dir.as_str(), name.as_str());
    AttachmentWrite { dir, path, bytes }
}

/// Where an image is found, and what has to be written for that.
/// `exists_as_file` tells whether the upload that the address names is a file.
pub fn attachment_path(
    working_dir: &str,
    data: &str,
    mime_type: &str,
    uri: Option<&str>,
    exists_as_file: bool,
) -> (r: Result<(String, Option<AttachmentWrite>), CliTurnError>)
    ensures
        match r {
            Ok((path, write)) => attached(
                working_dir@,
                data@,
                mime_type@,
                uri.deep_view(),
                exists_as_file,
            ) == Ok::<(Seq<char>, Option<WriteView>), ErrorView>((path@, write.deep_view())),
            Err(e) => attached(
                working_dir@,
                data@,
                mime_type@,
                uri.deep_view(),
                exists_as_file,
            ) == Err::<(Seq<char>, Option<WriteView>), ErrorView>(e@),
        },
{
    if let Some(path) = local_upload(uri) {
        if exists_as_file {
            return Ok((path, None));
        }
    }
    match digest::decode_base64(text::trimmed(data).as_str()) {
        Ok(bytes) => {
            let write = place(working_dir, bytes, mime_type);
            Ok((write.path.clone(), Some(write)))
        },
        Err(e) => Err(
            CliTurnError {
                code: "invalid_params",
                message: text::cat2("image attachment is not valid base64: ", e.as_str()),
                details: None,
            },
        ),
    }
}

/// The error for an attachment that could not be written.
pub fn io_error(path: &str, error: &str) -> (r: CliTurnError)
    ensures
        r@ == (ErrorView {
            code: "attachment_write_failed"@,
            message: "could not write the attachment "@ + path@ + ": "@ + error@,
            details: None,
        }),
{
    CliTurnError {
        code: "attachment_write_failed",
        message: text::cat4("could not write the attachment ", path, ": ", error),
        details: None,
    }
}

/// The image of a block: its data, its type and its address.
pub open spec fn image_of(block: BlockView) -> Option<(Seq<char>, Seq<char>, Option<Seq<char>>)> {
    match block {
        BlockView::Image { data, mime_type, uri } => Some((data, mime_type, uri)),
        BlockView::Resource { uri, mime_type, text, blob } => if text is None && driver::is_image(
            blob,
            mime_type,
        ) {
            Some((blob->0, mime_type->0, Some(uri)))
        } else {
            None
        },
        _ => None,
    }
}

/// The text of a block that is no image; nothing for a blank text.
pub open spec fn text_of(block: BlockView) -> Option<Seq<char>> {
    match block {
        BlockView::Text { text } => if text::trim(text).len() > 0 {
            Some(text)
        } else {
            None
        },
        BlockView::Resource { uri, text, .. } => match text {
            Some(t) => Some(driver::resource_text(uri, t)),
            None => Some("["@ + uri + "]"@),
        },
        BlockView::ResourceLink { uri, name, .. } => Some(driver::link_text(name, uri)),
        BlockView::Image { .. } => None,
    }
}

/// What a prompt comes apart into: pieces, files to write, and the error that
/// stopped it, if one did.
#[verifier::ext_equal]
pub struct ApartView {
    pub pieces: Seq<PieceView>,
    pub writes: Seq<WriteView>,
    pub error: Option<ErrorView>,
}

/// A prompt with one more block taken apart. Nothing follows an error.
pub open spec fn next(a: ApartView, block: BlockView, working_dir: Seq<char>, exists_as_file: bool) -> ApartView {
    if a.error is Some {
        a
    } else {
        match image_of(block) {
            Some((data, mime_type, uri)) => match attached(
                working_dir,
                data,
                mime_type,
                uri,
                exists_as_file,
            ) {
                Ok((path, write)) => ApartView {
                    pieces: a.pieces.push(PieceView::File(path)),
                    writes: match write {
                        Some(w) => a.writes.push(w),
                        None => a.writes,
                    },
                    error: None,
                },
                Err(e) => ApartView { error: Some(e), ..a },
            },
            None => match text_of(block) {
                Some(s) => ApartView { pieces: a.pieces.push(PieceView::Text(s)), ..a },
                None => a,
            },
        }
    }
}

/// A prompt taken apart. `existing` tells for each block whether the upload that
/// it names is a file.
pub open spec fn apart(blocks: Seq<BlockView>, working_dir: Seq<char>, existing: Seq<bool>) -> ApartView
    decreases blocks.len(),
{
    if blocks.len() == 0 {
        ApartView { pieces: Seq::empty(), writes: Seq::empty(), error: None }
    } else {
        next(
            apart(blocks.drop_last(), working_dir, existing),
            blocks.last(),
            working_dir,
            blocks.len() - 1 < existing.len() && existing[blocks.len() - 1],
        )
    }
}

/// A prompt taken apart.
#[derive(Debug)]
pub struct Apart {
    pub pieces: Vec<Piece>,
    pub writes: Vec<AttachmentWrite>,
    pub error: Option<CliTurnError>,
}

impl View for Apart {
    type V = ApartView;

    open spec fn view(&self) -> ApartView {
        ApartView {
            pieces: self.pieces.deep_view(),
            writes: self.writes.deep_view(),
            error: self.error.deep_view(),
        }
    }
}

impl Apart {
    /// Adds a piece.
    fn add_piece(&mut self, piece: Piece)
        ensures
            final(self)@ == (ApartView { pieces: old(self)@.pieces.push(piece@), ..old(self)@ }),
    {
        self.pieces.push(piece);
        assert(self.pieces.deep_view() =~= old(self)@.pieces.push(piece@));
    }

    /// Adds an image.
    fn add_image(
        &mut self,
        working_dir: &str,
        data: &str,
        mime_type: &str,
        uri: Option<&str>,
        exists_as_file: bool,
    )
        requires
            old(self)@.error is None,
        ensures
            final(self)@ == match attached(
                working_dir@,
                data@,
                mime_type@,
                uri.deep_view(),
                exists_as_file,
            ) {
                Ok((path, write)) => ApartView {
                    pieces: old(self)@.pieces.push(PieceView::File(path)),
                    writes: match write {
                        Some(w) => old(self)@.writes.push(w),
                        None => old(self)@.writes,
                    },
                    error: None,
                },
                Err(e) => ApartView { error: Some(e), ..old(self)@ },
            },
    {
        match attachment_path(working_dir, data, mime_type, uri, exists_as_file) {
            Ok((path, write)) => {
                self.add_piece(Piece::File(path));
                if let Some(w) = write {
                    let ghost before = self.writes.deep_view();
                    self.writes.push(w);
                    assert(self.writes.deep_view() =~= before.push(w@));
                }
            },
            Err(e) => {
                self.error = Some(e);
            },
        }
    }

    /// Takes one more block apart.
    fn add_block(&mut self, block: &PromptInputBlock, working_dir: &str, exists_as_file: bool)
        ensures
            final(self)@ == next(old(self)@, block@, working_dir@, exists_as_file),
    {
        if self.error.is_some() {
            return;
        }
        match block {
            PromptInputBlock::Text { text } => {
                if !text::trimmed(text.as_str()).as_str().is_empty() {
                    self.add_piece(Piece::Text(text.clone()));
                }
            },
            PromptInputBlock::Image { data, mime_type, uri } => {
                self.add_image(
                    working_dir,
                    data.as_str(),
                    mime_type.as_str(),
                    text::borrowed(uri),
                    exists_as_file,
                );
            },
            PromptInputBlock::Resource { uri, mime_type, text, blob } => {
                if let Some(t) = text {
                    self.add_piece(
                        Piece::Text(text::cat4("[", uri.as_str(), "]\n", t.as_str())),
                    );
                    return;
                }
                if let (Some(b), Some(m)) = (blob, mime_type) {
                    if text::starts_with(m.as_str(), "image/") {
                        self.add_image(
                            working_dir,
                            b.as_str(),
                            m.as_str(),
                            Some(uri.as_str()),
                            exists_as_file,
                        );
                        return;
                    }
                }
                self.add_piece(Piece::Text(text::cat3("[", uri.as_str(), "]")));
            },
            PromptInputBlock::ResourceLink { uri, name, .. } => {
                self.add_piece(
                    Piece::Text(text::cat5("[", name.as_str(), "](", uri.as_str(), ")")),
                );
            },
        }
    }
}

/// Takes a prompt apart.
pub fn take_apart(blocks: &Vec<PromptInputBlock>, working_dir: &str, existing: &Vec<bool>) -> (r: Apart)
    ensures
        r@ == apart(blocks.deep_view(), working_dir@, existing@),
{
    let mut out = Apart { pieces: Vec::new(), writes: Vec::new(), error: None };
    let ghost all = blocks.deep_view();
    proof {
        assert(out@.pieces =~= Seq::empty());
        assert(out@.writes =~= Seq::empty());
        assert(all.take(0) =~= Seq::empty());
    }
    for i in 0..blocks.len()
        invariant
            all == blocks.deep_view(),
            out@ == apart(all.take(i as int), working_dir@, existing@),
    {
        assert(all.take(i + 1).drop_last() =~= all.take(i as int));
        assert(all.take(i + 1).last() == blocks@[i as int]@);
        let exists_as_file = i < existing.len() && existing[i];
        out.add_block(&blocks[i], working_dir, exists_as_file);
    }
    assert(all.take(all.len() as int) =~= all);
    out
}

/// The address of the upload that each block may name, to be looked up on disk.
pub fn uploads(block: &PromptInputBlock) -> (r: Option<String>)
    ensures
        r.deep_view() == match image_of(block@) {
            Some((_, _, uri)) => upload_path(uri),
            None => None,
        },
{
    match block {
        PromptInputBlock::Image { uri, .. } => local_upload(text::borrowed(uri)),
        PromptInputBlock::Resource { uri, mime_type, text, blob } => {
            if text.is_none() {
                if let (Some(_), Some(m)) = (blob, mime_type) {
                    if text::starts_with(m.as_str(), "image/") {
                        return local_upload(Some(uri.as_str()));
                    }
                }
            }
            None
        },
        _ => None,
    }
}

/// The content of an image names its file: the same bytes lie at the same path,
/// however they were handed in.
pub proof fn same_bytes_same_file(
    working_dir: Seq<char>,
    a: Seq<char>,
    b: Seq<char>,
    mime_type: Seq<char>,
    uri: Option<Seq<char>>,
)
    requires
        digest::base64_decoded(text::trim(a)) == digest::base64_decoded(text::trim(b)),
        digest::base64_decoded(text::trim(a)) is Ok,
    ensures
        attached(working_dir, a, mime_type, uri, false) == attached(
            working_dir,
            b,
            mime_type,
            None,
            false,
        ),
        attached(working_dir, a, mime_type, uri, false) is Ok,
{
}

} // verus!
