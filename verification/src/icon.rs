use vstd::prelude::*;

verus! {

/// An image as rows of RGBA pixels, four bytes each.
pub struct IconRgba {
    pub rgba: Vec<u8>,
    pub width: u32,
    pub height: u32,
}

/// The RGBA pixels, width and height of the image encoded in `bytes` (its format known by its
/// leading magic bytes), if it decodes.
pub uninterp spec fn decoded_rgba(bytes: Seq<u8>) -> Option<(Seq<u8>, u32, u32)>;

/// `image::load_from_memory_with_format` with the built-in format that `image::guess_format` reads
/// from the leading magic bytes (no registered hook takes part), converted with `to_rgba8`, then
/// read with `dimensions` and `into_raw`: four bytes for each pixel.
#[verifier::external_body]
fn decode_rgba(bytes: &[u8]) -> (r: Option<(Vec<u8>, u32, u32)>)
    ensures
        match r {
            Some((d, w, h)) => decoded_rgba(bytes@) == Some((d@, w, h)) && d@.len() == 4 * w * h,
            None => decoded_rgba(bytes@) is None,
        },
{
    let format = image::guess_format(bytes).ok()?;
    let img = image::load_from_memory_with_format(bytes, format).ok()?;
    let rgba = img.to_rgba8();
    let (w, h) = rgba.dimensions();
    Some((rgba.into_raw(), w, h))
}

/// The window icon decoded from the icon file's bytes; none when they do not decode.
pub fn load_icon(bytes: &[u8]) -> (r: Option<IconRgba>)
    ensures
        match r {
            Some(i) => decoded_rgba(bytes@) == Some((i.rgba@, i.width, i.height)) && i.rgba@.len()
                == 4 * i.width * i.height,
            None => decoded_rgba(bytes@) is None,
        },
{
    match decode_rgba(bytes) {
        Some((rgba, width, height)) => Some(IconRgba { rgba, width, height }),
        None => None,
    }
}

/// The message with which the installer stops when its icon does not decode.
pub fn icon_error_message() -> (s: &'static str)
    ensures
        s@ == "Impossibile caricare l'icona. Assicurati che 'morpheus.ico' sia nella root del progetto."@,
{
    "Impossibile caricare l'icona. Assicurati che 'morpheus.ico' sia nella root del progetto."
}

} // verus!
