//! What becomes of the images of a prompt.
use vstd::prelude::*;
use crate::cli::attachments;
use crate::cli::attachments::{ApartView, PieceView, WriteView};
use crate::cli::outcome::ErrorView;
use crate::cli::prompt::BlockView;
use crate::digest;
use crate::image_pins;
use crate::paths;
use crate::text;

verus! {

/// The value of a hexadecimal digit.
pub open spec fn worth(c: char) -> int {
    if '0' <= c <= '9' {
        c as int - '0' as int
    } else {
        c as int - 'a' as int + 10
    }
}

/// Bytes are spelled by two digits each, from which they can be read back.
pub proof fn bytes_are_spelled(bytes: Seq<u8>, i: int)
    requires
        0 <= i < bytes.len(),
    ensures
        digest::hex(bytes).len() == 2 * bytes.len(),
        ({
            let a = digest::hex(bytes)[2 * i];
            let b = digest::hex(bytes)[2 * i + 1];
            &&& '0' <= a <= '9' || 'a' <= a <= 'f'
            &&& '0' <= b <= '9' || 'a' <= b <= 'f'
            &&& bytes[i] == 16 * worth(a) + worth(b)
        }),
    decreases bytes.len(),
{
    let front = bytes.drop_last();
    if front.len() > 0 {
        if i < front.len() {
            bytes_are_spelled(front, i);
        } else {
            bytes_are_spelled(front, 0);
        }
    } else {
        assert(digest::hex(front).len() == 0);
    }
}

/// An upload that lies on this machine is used where it lies, and nothing is written.
pub proof fn uploads_are_used_where_they_lie(
    dir: Seq<char>,
    data: Seq<char>,
    mime: Seq<char>,
    path: Seq<char>,
)
    requires
        path.len() > 0,
        path[0] == '/',
    ensures
        attachments::attached(dir, data, mime, Some("file://"@ + path), true) == Ok::<
            (Seq<char>, Option<WriteView>),
            ErrorView,
        >((path, None)),
{
    let p = "file://"@;
    let uri = p + path;
    assert(uri.take(p.len() as int) =~= p);
    assert(uri.skip(p.len() as int) =~= path);
}

/// Any other image is written below the working directory, under a name that its bytes and
/// its kind give; the bytes are those that it holds, and the file is the one that is named.
pub proof fn images_are_written(
    dir: Seq<char>,
    data: Seq<char>,
    mime: Seq<char>,
    uri: Option<Seq<char>>,
    bytes: Seq<u8>,
    why: Seq<char>,
)
    ensures
        digest::base64_decoded(text::trim(data)) == Ok::<Seq<u8>, Seq<char>>(bytes)
            ==> attachments::attached(dir, data, mime, uri, false) == ({
            let home = paths::below(dir, ".codeg/attachments"@);
            let path = paths::below(
                home,
                digest::hex(digest::sha256_digest(bytes).take(8)) + "."@ + attachments::extension(
                    mime,
                ),
            );
            Ok::<(Seq<char>, Option<WriteView>), ErrorView>(
                (path, Some(WriteView { dir: home, path, bytes })),
            )
        }),
        digest::base64_decoded(text::trim(data)) == Err::<Seq<u8>, Seq<char>>(why)
            ==> attachments::attached(dir, data, mime, uri, false) == Err::<
            (Seq<char>, Option<WriteView>),
            ErrorView,
        >(
            ErrorView {
                code: "invalid_params"@,
                message: "image attachment is not valid base64: "@ + why,
                details: None,
            },
        ),
{
}

/// The kinds of images have their usual endings, whatever the case of their names.
pub proof fn images_have_their_endings(mime: Seq<char>)
    ensures
        text::lower(mime) == "image/png"@ ==> attachments::extension(mime) == "png"@,
        text::lower(mime) == "image/jpeg"@ ==> attachments::extension(mime) == "jpg"@,
        text::lower(mime) == "image/jpg"@ ==> attachments::extension(mime) == "jpg"@,
        text::lower(mime) == "image/gif"@ ==> attachments::extension(mime) == "gif"@,
        text::lower(mime) == "image/webp"@ ==> attachments::extension(mime) == "webp"@,
        text::lower(mime) == "image/svg+xml"@ ==> attachments::extension(mime) == "svg"@,
        text::lower(mime) != "image/png"@ && text::lower(mime) != "image/jpeg"@ && text::lower(mime)
            != "image/jpg"@ && text::lower(mime) != "image/gif"@ && text::lower(mime)
            != "image/webp"@ && text::lower(mime) != "image/svg+xml"@ ==> attachments::extension(
            mime,
        ) == "bin"@,
{
    reveal_strlit("image/png");
    reveal_strlit("image/jpeg");
    reveal_strlit("image/jpg");
    reveal_strlit("image/gif");
    reveal_strlit("image/webp");
    reveal_strlit("image/svg+xml");
    assert("image/png"@.len() == 9 && "image/png"@[6] == 'p');
    assert("image/jpeg"@.len() == 10 && "image/jpeg"@[6] == 'j');
    assert("image/jpg"@.len() == 9 && "image/jpg"@[6] == 'j');
    assert("image/gif"@.len() == 9 && "image/gif"@[6] == 'g');
    assert("image/webp"@.len() == 10 && "image/webp"@[6] == 'w');
    assert("image/svg+xml"@.len() == 13);
}

/// An image of a prompt becomes a file where it stands among the pieces; one that cannot be
/// read is an error, after which nothing more is taken.
pub proof fn images_become_files(
    blocks: Seq<BlockView>,
    block: BlockView,
    data: Seq<char>,
    mime: Seq<char>,
    uri: Option<Seq<char>>,
    dir: Seq<char>,
    existing: Seq<bool>,
)
    requires
        block == (BlockView::Image { data, mime_type: mime, uri }),
        existing.len() == blocks.len() + 1,
    ensures
        ({
            let before = attachments::apart(blocks, dir, existing);
            let now = attachments::apart(blocks.push(block), dir, existing);
            let file = attachments::attached(dir, data, mime, uri, existing[blocks.len() as int]);
            &&& before.error is Some ==> now == before
            &&& before.error is None && file is Err ==> now == ApartView {
                error: Some(file->Err_0),
                ..before
            }
            &&& before.error is None && file is Ok ==> now.error is None && now.pieces
                == before.pieces.push(PieceView::File(file->Ok_0.0)) && now.writes == (
            if file->Ok_0.1 is Some {
                before.writes.push(file->Ok_0.1->0)
            } else {
                before.writes
            })
        }),
{
    assert(blocks.push(block).drop_last() =~= blocks);
}

/// A resource of a prompt is its text behind its address, an image that becomes a file, or
/// its address alone; a link is its name and its address. Each stands where it stood.
pub proof fn resources_are_told(
    blocks: Seq<BlockView>,
    block: BlockView,
    dir: Seq<char>,
    existing: Seq<bool>,
)
    requires
        block is Resource || block is ResourceLink,
        existing.len() == blocks.len() + 1,
        attachments::apart(blocks, dir, existing).error is None,
    ensures
        ({
            let before = attachments::apart(blocks, dir, existing);
            let now = attachments::apart(blocks.push(block), dir, existing);
            match block {
                BlockView::Resource { uri, mime_type, text, blob } => if text is Some {
                    now == ApartView {
                        pieces: before.pieces.push(
                            PieceView::Text("["@ + uri + "]\n"@ + text->0),
                        ),
                        ..before
                    }
                } else if blob is Some && mime_type is Some && text::begins(
                    mime_type->0,
                    "image/"@,
                ) {
                    now == attachments::apart(
                        blocks.push(
                            BlockView::Image {
                                data: blob->0,
                                mime_type: mime_type->0,
                                uri: Some(uri),
                            },
                        ),
                        dir,
                        existing,
                    )
                } else {
                    now == ApartView {
                        pieces: before.pieces.push(PieceView::Text("["@ + uri + "]"@)),
                        ..before
                    }
                },
                BlockView::ResourceLink { uri, name, .. } => now == ApartView {
                    pieces: before.pieces.push(
                        PieceView::Text("["@ + name + "]("@ + uri + ")"@),
                    ),
                    ..before
                },
                _ => true,
            }
        }),
{
    assert(blocks.push(block).drop_last() =~= blocks);
    match block {
        BlockView::Resource { uri, mime_type, text, blob } => {
            let image = BlockView::Image {
                data: blob->0,
                mime_type: mime_type->0,
                uri: Some(uri),
            };
            assert(blocks.push(image).drop_last() =~= blocks);
        },
        _ => {},
    }
}

/// A version that is pinned is what stands behind the name on the first line that sets it.
pub proof fn the_first_pin_counts(lines: Seq<Seq<char>>, name: Seq<char>, i: int)
    requires
        0 <= i <= lines.len(),
        forall|j: int|
            0 <= j < i ==> !text::begins(text::trim(#[trigger] lines[j]), "ARG "@ + name + "="@),
        i < lines.len() ==> text::begins(text::trim(lines[i]), "ARG "@ + name + "="@),
    ensures
        i == lines.len() ==> image_pins::first_default(lines, name) is None,
        i < lines.len() ==> image_pins::first_default(lines, name) == Some(
            text::trim(text::trim(lines[i]).skip(("ARG "@ + name + "="@).len() as int)),
        ),
    decreases i,
{
    if i > 0 {
        assert(!text::begins(text::trim(lines[0]), "ARG "@ + name + "="@));
        let rest = lines.skip(1);
        assert forall|j: int| 0 <= j < i - 1 implies !text::begins(
            text::trim(#[trigger] rest[j]),
            "ARG "@ + name + "="@,
        ) by {
            assert(rest[j] == lines[j + 1]);
        }
        the_first_pin_counts(rest, name, i - 1);
    }
}

} // verus!
