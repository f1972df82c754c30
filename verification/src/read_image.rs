//! The tool that shows an image file to the model.
use crate::base64::{base64_encode, encoded};
use crate::image_preproc::{becomes, preprocess, DEFAULT_JPEG_QUALITY, DEFAULT_MAX_DIMENSION};
use crate::json::Json;
use crate::text::{chars_of, decimal, decimal_text, ends_with, lower_text, lowercase};
use crate::tools::file::{get_text_or, text_or};
use crate::tools::schema::{make_one_arg_schema, one_arg_schema};
use crate::tools::ToolPlugin;
use crate::types::{
    plain_result, ImageBlock, ImageBlockV, ToolDefinition, ToolDefinitionV, ToolResult, ToolResultV,
};
use crate::views::views;
use vstd::prelude::*;

verus! {

/// The media type that the ending of a path in small letters means; JPEG where it means none.
pub open spec fn media_type_of(lower: Seq<char>) -> Seq<char> {
    if ".png"@.is_suffix_of(lower) {
        "image/png"@
    } else if ".jpg"@.is_suffix_of(lower) || ".jpeg"@.is_suffix_of(lower) {
        "image/jpeg"@
    } else if ".gif"@.is_suffix_of(lower) {
        "image/gif"@
    } else if ".webp"@.is_suffix_of(lower) {
        "image/webp"@
    } else if ".bmp"@.is_suffix_of(lower) {
        "image/bmp"@
    } else {
        "image/jpeg"@
    }
}

/// The media type that the ending of a path in small letters means.
pub fn media_type_for(lower: &str) -> (r: String)
    ensures
        r@ == media_type_of(lower@),
{
    if ends_with(lower, ".png") {
        "image/png".to_owned()
    } else if ends_with(lower, ".jpg") || ends_with(lower, ".jpeg") {
        "image/jpeg".to_owned()
    } else if ends_with(lower, ".gif") {
        "image/gif".to_owned()
    } else if ends_with(lower, ".webp") {
        "image/webp".to_owned()
    } else if ends_with(lower, ".bmp") {
        "image/bmp".to_owned()
    } else {
        "image/jpeg".to_owned()
    }
}

/// The media type that the ending of a path means, whatever the case of its letters.
pub fn detect_media_type(path: &str) -> (r: String)
    ensures
        r@ == media_type_of(lowercase(path@)),
{
    media_type_for(lower_text(path).as_str())
}

/// What the model is told of an image that was read.
pub open spec fn loaded_text(
    path: Seq<char>,
    size: nat,
    before: Seq<char>,
    after: Seq<char>,
) -> Seq<char> {
    "Image loaded from "@ + path + " ("@ + decimal(size) + " bytes, "@ + before + " → "@ + after
        + ")"@
}

/// What the model is shown: the image, and a line about it.
pub open spec fn shown(
    path: Seq<char>,
    size: nat,
    before: Seq<char>,
    image: ImageBlockV,
) -> ToolResultV {
    ToolResultV {
        content: loaded_text(path, size, before, image.media_type),
        is_error: false,
        images: seq![image],
    }
}

/// The image of a file, as it is before it is made small enough.
pub open spec fn file_block(path: Seq<char>, bytes: Seq<u8>) -> ImageBlockV {
    ImageBlockV { media_type: media_type_of(lowercase(path)), data: encoded(bytes) }
}

/// Shows an image that was made small enough.
pub fn show_image(path: &str, size: usize, before: &str, image: ImageBlock) -> (r: ToolResult)
    ensures
        r@ == shown(path@, size as nat, before@, image@),
{
    let mut content = "Image loaded from ".to_owned();
    content.push_str(path);
    content.push_str(" (");
    content.push_str(decimal_text(size as u64).as_str());
    content.push_str(" bytes, ");
    content.push_str(before);
    content.push_str(" → ");
    content.push_str(image.media_type.as_str());
    content.push_str(")");
    let ghost iv = image@;
    let mut images: Vec<ImageBlock> = Vec::new();
    images.push(image);
    assert(views(images@) =~= seq![iv]);
    ToolResult { content, is_error: false, images }
}

/// The result for a call without a path.
pub open spec fn no_path() -> ToolResultV {
    plain_result("Error: `path` is required"@, true)
}

/// The result for a file that was read, or could not be.
pub fn read_image_file(path: &str, outcome: Result<Vec<u8>, String>) -> (r: ToolResult)
    ensures
        path@.len() == 0 ==> r@ == no_path(),
        path@.len() > 0 ==> match outcome {
            Ok(bytes) => exists|image: ImageBlockV|
                {
                    &&& #[trigger] becomes(
                        file_block(path@, bytes@),
                        DEFAULT_MAX_DIMENSION,
                        DEFAULT_JPEG_QUALITY,
                        image,
                    )
                    &&& r@ == shown(
                        path@,
                        bytes@.len(),
                        media_type_of(lowercase(path@)),
                        image,
                    )
                },
            Err(e) => r@ == plain_result("Error reading image file: "@ + e@, true),
        },
{
    if chars_of(path).len() == 0 {
        return ToolResult::plain("Error: `path` is required".to_owned(), true);
    }
    match outcome {
        Ok(bytes) => {
            let block = ImageBlock {
                media_type: detect_media_type(path),
                data: base64_encode(&bytes),
            };
            let processed = preprocess(&block);
            let ghost pv = processed@;
            assert(block@ == file_block(path@, bytes@));
            assert(becomes(
                file_block(path@, bytes@),
                DEFAULT_MAX_DIMENSION,
                DEFAULT_JPEG_QUALITY,
                pv,
            ));
            show_image(path, bytes.len(), block.media_type.as_str(), processed)
        },
        Err(e) => {
            let mut m = "Error reading image file: ".to_owned();
            m.push_str(e.as_str());
            ToolResult::plain(m, true)
        },
    }
}

/// The tool that shows an image file to the model.
pub struct ReadImageTool {}

impl ToolPlugin for ReadImageTool {
    open spec fn described(&self) -> ToolDefinitionV {
        ToolDefinitionV {
            name: "read_image"@,
            description:
                "Read an image file and return it for visual analysis. Supports PNG, JPEG, GIF, WebP, BMP. Images are auto-resized to max 1920px and re-encoded as JPEG."@,
            parameters: one_arg_schema("path"@, "Path to the image file to read"@),
            timeout_ms: 10000,
            guidance:
                "Use this tool to read and analyze local image files (screenshots, diagrams, photos). The image will be sent to the model for visual analysis."@,
        }
    }

    fn definition(&self) -> (r: ToolDefinition) {
        ToolDefinition {
            name: "read_image".to_owned(),
            description:
                "Read an image file and return it for visual analysis. Supports PNG, JPEG, GIF, WebP, BMP. Images are auto-resized to max 1920px and re-encoded as JPEG.".to_owned(),
            parameters: make_one_arg_schema("path", "Path to the image file to read"),
            timeout_ms: 10000,
            guidance:
                "Use this tool to read and analyze local image files (screenshots, diagrams, photos). The image will be sent to the model for visual analysis.".to_owned(),
        }
    }
}

impl ReadImageTool {
    /// The path that a call asks for; empty where it asks for none.
    pub fn prepare(&self, args: &Json) -> (r: String)
        ensures
            r@ == text_or(args@, "path"@, ""@),
    {
        get_text_or(args, "path", "")
    }
}

/// The kind of an image is told by the end of its name, and is that of a photo where nothing else
/// is known.
pub proof fn law_names_tell_the_kind(stem: Seq<char>, lower: Seq<char>)
    ensures
        media_type_of(stem + ".png"@) == "image/png"@,
        media_type_of(stem + ".jpg"@) == "image/jpeg"@,
        media_type_of(stem + ".jpeg"@) == "image/jpeg"@,
        media_type_of(stem + ".gif"@) == "image/gif"@,
        media_type_of(stem + ".webp"@) == "image/webp"@,
        media_type_of(stem + ".bmp"@) == "image/bmp"@,
        !".png"@.is_suffix_of(lower) && !".gif"@.is_suffix_of(lower) && !".webp"@.is_suffix_of(
            lower,
        ) && !".bmp"@.is_suffix_of(lower) ==> media_type_of(lower) == "image/jpeg"@,
{
    reveal_strlit(".png");
    reveal_strlit(".jpg");
    reveal_strlit(".jpeg");
    reveal_strlit(".gif");
    reveal_strlit(".webp");
    reveal_strlit(".bmp");
    lemma_ends(stem, ".png"@);
    lemma_ends(stem, ".jpg"@);
    lemma_ends(stem, ".jpeg"@);
    lemma_ends(stem, ".gif"@);
    lemma_ends(stem, ".webp"@);
    lemma_ends(stem, ".bmp"@);
    assert(".png"@.last() == 'g' && ".jpg"@.last() == 'g' && ".jpeg"@.last() == 'g');
    assert(".gif"@.last() == 'f' && ".webp"@.last() == 'p' && ".bmp"@.last() == 'p');
    assert(".png"@[2] == 'n' && ".jpg"@[2] == 'p' && ".jpeg"@[3] == 'e');
    assert(".webp"@[3] == 'b' && ".bmp"@[2] == 'm');
}

proof fn lemma_ends(stem: Seq<char>, end: Seq<char>)
    ensures
        end.is_suffix_of(stem + end),
        forall|other: Seq<char>|
            #![trigger other.is_suffix_of(stem + end)]
            other.is_suffix_of(stem + end) && other.len() >= 2 && end.len() >= 2 ==> other.last()
                == end.last() && other[other.len() - 2] == end[end.len() - 2],
{
    let s = stem + end;
    assert(s.skip(s.len() - end.len()) =~= end);
    assert forall|other: Seq<char>|
        #![trigger other.is_suffix_of(s)]
        other.is_suffix_of(s) && other.len() >= 2 && end.len() >= 2 implies other.last()
        == end.last() && other[other.len() - 2] == end[end.len() - 2] by {
        assert(other[other.len() - 1] == s[s.len() - 1]);
        assert(other[other.len() - 2] == s[s.len() - 2]);
    }
}

/// An image that was read is shown, with where it came from, its size and its kinds before and
/// after; its bytes are what stands in its data.
pub proof fn law_images_are_shown(
    path: Seq<char>,
    size: nat,
    before: Seq<char>,
    image: ImageBlockV,
    bytes: Seq<u8>,
)
    ensures
        shown(path, size, before, image).images == seq![image],
        !shown(path, size, before, image).is_error,
        shown(path, size, before, image).content == "Image loaded from "@ + path + " ("@ + decimal(
            size,
        ) + " bytes, "@ + before + " → "@ + image.media_type + ")"@,
        file_block(path, bytes).media_type == media_type_of(lowercase(path)),
        file_block(path, bytes).data == encoded(bytes),
        no_path().is_error,
{
}

} // verus!
