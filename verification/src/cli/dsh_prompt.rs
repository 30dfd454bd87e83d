//! Arguments and prompt text of one DeepSeek Harness turn. The harness takes the
//! task as one text, so images are referenced by their path.
use vstd::prelude::*;
use crate::cli::attachments;
use crate::cli::attachments::{Apart, ApartView, AttachmentWrite, Piece, PieceView};
use crate::cli::outcome::{CliTurnError, ErrorView};
use crate::cli::prompt::PromptInputBlock;
use crate::text;

verus! {

/// The most bytes of a prompt; a longer one would not fit on a command line.
pub const MAX_PROMPT_BYTES: usize = 524288;

/// The arguments of one turn: the launcher's own first, then those of the app; a
/// `--` keeps a prompt that starts with `-` from being read as an option.
pub open spec fn args(patch_path: Seq<char>, session_id: Option<Seq<char>>, prompt: Seq<char>) -> Seq<
    Seq<char>,
> {
    seq!["--profile"@, "headless"@, "--patch"@, patch_path, "--json"@] + (if session_id is Some
        && session_id->0.len() > 0 {
        seq!["--session-id"@, session_id->0]
    } else {
        Seq::empty()
    }) + seq!["--"@, prompt]
}

/// The arguments of one turn.
pub fn build_args(patch_path: &str, session_id: Option<&str>, prompt: &str) -> (r: Vec<String>)
    ensures
        r.deep_view() == args(patch_path@, session_id.deep_view(), prompt@),
{
    let mut out: Vec<String> = Vec::new();
    out.push("--profile".to_owned());
    out.push("headless".to_owned());
    out.push("--patch".to_owned());
    out.push(patch_path.to_owned());
    out.push("--json".to_owned());
    if let Some(id) = session_id {
        if !id.is_empty() {
            out.push("--session-id".to_owned());
            out.push(id.to_owned());
        }
    }
    out.push("--".to_owned());
    out.push(prompt.to_owned());
    assert(out.deep_view() =~= args(patch_path@, session_id.deep_view(), prompt@));
    out
}

/// A piece of a prompt as text: a file by its path.
pub open spec fn part(p: PieceView) -> Seq<char> {
    match p {
        PieceView::Text(s) => s,
        PieceView::File(path) => "[附件: "@ + path + "]"@,
    }
}

/// The pieces of a prompt as one text.
pub open spec fn flat(pieces: Seq<PieceView>) -> Seq<char> {
    text::join(pieces.map_values(|p: PieceView| part(p)), "\n\n"@)
}

/// The text of a prompt, or the error that refuses it.
pub open spec fn flattened(a: ApartView) -> Result<Seq<char>, ErrorView> {
    let prompt = flat(a.pieces);
    if a.error is Some {
        Err(a.error->0)
    } else if text::trim(prompt).len() == 0 {
        Err(attachments::invalid("the prompt has no text content"@))
    } else if text::bytes(prompt) > MAX_PROMPT_BYTES {
        Err(
            ErrorView {
                code: "prompt_too_large"@,
                message: "the prompt is "@ + text::dec(text::bytes(prompt))
                    + " bytes; the DeepSeek Harness CLI takes at most "@ + text::dec(
                    MAX_PROMPT_BYTES as nat,
                ),
                details: None,
            },
        )
    } else {
        Ok(prompt)
    }
}

/// The pieces of a prompt as one text.
fn join_pieces(pieces: &Vec<Piece>) -> (r: String)
    ensures
        r@ == flat(pieces.deep_view()),
{
    let mut parts: Vec<String> = Vec::new();
    let ghost all = pieces.deep_view().map_values(|p: PieceView| part(p));
    for i in 0..pieces.len()
        invariant
            all == pieces.deep_view().map_values(|p: PieceView| part(p)),
            parts.deep_view() == all.take(i as int),
    {
        let s = match &pieces[i] {
            Piece::Text(s) => s.clone(),
            Piece::File(path) => text::cat3("[附件: ", path.as_str(), "]"),
        };
        assert(s@ == all[i as int]);
        text::push(&mut parts, s);
        assert(parts.deep_view() =~= all.take(i + 1));
    }
    assert(all.take(pieces@.len() as int) =~= all);
    text::joined(&parts, "\n\n")
}

/// The text of a prompt that was taken apart.
fn finish_prompt(a: Apart) -> (r: (Vec<AttachmentWrite>, Result<String, CliTurnError>))
    ensures
        r.0.deep_view() == a@.writes,
        match r.1 {
            Ok(prompt) => flattened(a@) == Ok::<Seq<char>, ErrorView>(prompt@),
            Err(e) => flattened(a@) == Err::<Seq<char>, ErrorView>(e@),
        },
{
    let prompt = join_pieces(&a.pieces);
    if let Some(e) = a.error {
        return (a.writes, Err(e));
    }
    if text::trimmed(prompt.as_str()).as_str().is_empty() {
        return (
            a.writes,
            Err(
                CliTurnError {
                    code: "invalid_params",
                    message: "the prompt has no text content".to_owned(),
                    details: None,
                },
            ),
        );
    }
    let size = text::byte_len(prompt.as_str());
    if size > MAX_PROMPT_BYTES {
        let message = text::cat4(
            "the prompt is ",
            text::dec_u64(size as u64).as_str(),
            " bytes; the DeepSeek Harness CLI takes at most ",
            text::dec_u64(MAX_PROMPT_BYTES as u64).as_str(),
        );
        return (
            a.writes,
            Err(CliTurnError { code: "prompt_too_large", message, details: None }),
        );
    }
    (a.writes, Ok(prompt))
}

/// Flattens prompt blocks to one text, and tells the files to write before it is
/// used. `existing` tells for each block whether the upload that it names is a
/// file. Blank and oversized prompts are refused.
pub fn flatten_prompt(blocks: &Vec<PromptInputBlock>, working_dir: &str, existing: &Vec<bool>) -> (r: (
    Vec<AttachmentWrite>,
    Result<String, CliTurnError>,
))
    ensures
        r.0.deep_view() == attachments::apart(blocks.deep_view(), working_dir@, existing@).writes,
        match r.1 {
            Ok(prompt) => flattened(
                attachments::apart(blocks.deep_view(), working_dir@, existing@),
            ) == Ok::<Seq<char>, ErrorView>(prompt@),
            Err(e) => flattened(
                attachments::apart(blocks.deep_view(), working_dir@, existing@),
            ) == Err::<Seq<char>, ErrorView>(e@),
        },
{
    finish_prompt(attachments::take_apart(blocks, working_dir, existing))
}

/// A prompt that is handed on is not blank and fits on the command line.
pub proof fn accepted_prompts_fit(a: ApartView)
    requires
        flattened(a) is Ok,
    ensures
        text::trim(flattened(a)->Ok_0).len() > 0,
        text::bytes(flattened(a)->Ok_0) <= MAX_PROMPT_BYTES,
{
}

/// The prompt is the last argument, right behind `--`, whatever it begins with.
pub proof fn prompt_is_separated(patch_path: Seq<char>, session_id: Option<Seq<char>>, prompt: Seq<char>)
    ensures
        args(patch_path, session_id, prompt).last() == prompt,
        args(patch_path, session_id, prompt)[args(patch_path, session_id, prompt).len() - 2]
            == "--"@,
{
}

} // verus!
