//! The credit for the image behind the scoreboard.

use std::borrow::ToOwned;
use vstd::prelude::*;

verus! {

/// Who made an image and where it can be found.
pub struct ImageDescription {
    pub author: String,
    pub url: String,
}

/// The credit for the background image.
pub fn background_image_description() -> (r: ImageDescription)
    ensures
        r.author@ == "die salo"@,
        r.url@ == "https://www.instagram.com/p/CyrMyRos2xQ/?img_index=1"@,
{
    ImageDescription {
        author: "die salo".to_owned(),
        url: "https://www.instagram.com/p/CyrMyRos2xQ/?img_index=1".to_owned(),
    }
}

} // verus!
