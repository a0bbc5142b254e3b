use vstd::prelude::*;
use crate::bitmap::{encode_png, image_error_text, png_encoded, Bitmap};
use crate::errors::Errors;

verus! {

/// A finished image on its way to the client.
#[derive(Debug)]
pub struct ImageResponse(pub Bitmap);

impl ImageResponse {
    /// The response as a success.
    #[inline]
    pub fn ok<T>(self) -> (r: Result<Self, T>)
        ensures
            r == Ok::<Self, T>(self),
    {
        Ok(self)
    }

    /// What `png` answers, given what the codec writes for the image.
    pub open spec fn png_outcome(&self, r: Result<Vec<u8>, Errors>) -> bool {
        match png_encoded(self.0.width, self.0.height, self.0.data@) {
            Some(bytes) => r matches Ok(body) && body@ == bytes,
            None => r matches Err(Errors::InvalidInput(_)),
        }
    }

    /// The body of the response: the image as a PNG file.
    pub fn png(&self) -> (r: Result<Vec<u8>, Errors>)
        requires
            self.0.wf(),
        ensures
            self.png_outcome(r),
    {
        match encode_png(&self.0) {
            Ok(bytes) => Ok(bytes),
            Err(error) => Err(Errors::InvalidInput(image_error_text(&error))),
        }
    }
}

} // verus!
