//! Random choices.
//!
//! A few features pick something at random: an embed colour from a fixed
//! palette, one of the animal-image services. The draw itself comes from
//! the system generator; everything proved here holds of every value it
//! can return.

use vstd::prelude::*;

verus! {

/// How many colours the palette holds.
pub const PALETTE_SIZE: u64 = 19;

/// How many animal-image services are known.
pub const ANIMAL_API_COUNT: u64 = 7;

/// Relies on rand::random_range over `0..n`: a uniform draw from the
/// range, which panics only when the range is empty.
#[verifier::external_body]
fn random_below(n: u64) -> (r: u64)
    requires
        n > 0,
    ensures
        r < n,
{
    rand::random_range(0..n)
}

/// The embed-colour palette.
pub open spec fn spec_palette(i: u64) -> u32 {
    if i == 0 {
        0x5865F2
    } else if i == 1 {
        0xC27C0E
    } else if i == 2 {
        0x1F8B4C
    } else if i == 3 {
        0x6FC6E2
    } else if i == 4 {
        0x71368A
    } else if i == 5 {
        0x992D22
    } else if i == 6 {
        0x11806A
    } else if i == 7 {
        0xF1C40F
    } else if i == 8 {
        0xE91E63
    } else if i == 9 {
        0x3498DB
    } else if i == 10 {
        0xE67E22
    } else if i == 11 {
        0x9B59B6
    } else if i == 12 {
        0xE74C3C
    } else if i == 13 {
        0xF6DBD8
    } else if i == 14 {
        0x1ABC9C
    } else if i == 15 {
        0x6FC6E2
    } else if i == 16 {
        0xE68397
    } else if i == 17 {
        0xE91E63
    } else {
        0x11CA80
    }
}

/// The colour at a palette position.
pub fn palette_colour(i: u64) -> (c: u32)
    requires
        i < PALETTE_SIZE,
    ensures
        c == spec_palette(i),
{
    if i == 0 {
        0x5865F2
    } else if i == 1 {
        0xC27C0E
    } else if i == 2 {
        0x1F8B4C
    } else if i == 3 {
        0x6FC6E2
    } else if i == 4 {
        0x71368A
    } else if i == 5 {
        0x992D22
    } else if i == 6 {
        0x11806A
    } else if i == 7 {
        0xF1C40F
    } else if i == 8 {
        0xE91E63
    } else if i == 9 {
        0x3498DB
    } else if i == 10 {
        0xE67E22
    } else if i == 11 {
        0x9B59B6
    } else if i == 12 {
        0xE74C3C
    } else if i == 13 {
        0xF6DBD8
    } else if i == 14 {
        0x1ABC9C
    } else if i == 15 {
        0x6FC6E2
    } else if i == 16 {
        0xE68397
    } else if i == 17 {
        0xE91E63
    } else {
        0x11CA80
    }
}

/// A random colour from the palette: whatever the draw, the result is one
/// of the palette's entries.
pub fn random_color() -> (c: u32)
    ensures
        exists|i: u64| i < PALETTE_SIZE && c == spec_palette(i),
{
    let i = random_below(PALETTE_SIZE);
    let c = palette_colour(i);
    proof {
        assert(i < PALETTE_SIZE && c == spec_palette(i));
    }
    c
}

/// The request URL of each animal-image service; the last two carry the
/// caller's API token.
pub open spec fn spec_animal_api_url(choice: u64, cat_token: Seq<char>, dog_token: Seq<char>) -> Seq<
    char,
> {
    if choice == 0 {
        "https://randomfox.ca/floof/"@
    } else if choice == 1 {
        "https://shibe.online/api/shibes?count=1&urls=true&httpsUrls=true"@
    } else if choice == 2 {
        "https://random.dog/woof.json"@
    } else if choice == 3 {
        "https://dog.ceo/api/breeds/image/random"@
    } else if choice == 4 {
        "https://cataas.com/cat?json=true"@
    } else if choice == 5 {
        "https://api.thecatapi.com/v1/images/search?api_key="@ + cat_token
    } else {
        "https://api.thedogapi.com/v1/images/search?api_key="@ + dog_token
    }
}

/// Which service a drawn choice stands for, as a request URL.
pub fn animal_api_url(choice: u64, cat_api_token: &str, dog_api_token: &str) -> (r: String)
    requires
        choice < ANIMAL_API_COUNT,
    ensures
        r@ == spec_animal_api_url(choice, cat_api_token@, dog_api_token@),
{
    if choice == 0 {
        String::from_str("https://randomfox.ca/floof/")
    } else if choice == 1 {
        String::from_str("https://shibe.online/api/shibes?count=1&urls=true&httpsUrls=true")
    } else if choice == 2 {
        String::from_str("https://random.dog/woof.json")
    } else if choice == 3 {
        String::from_str("https://dog.ceo/api/breeds/image/random")
    } else if choice == 4 {
        String::from_str("https://cataas.com/cat?json=true")
    } else if choice == 5 {
        String::from_str("https://api.thecatapi.com/v1/images/search?api_key=").concat(
            cat_api_token,
        )
    } else {
        String::from_str("https://api.thedogapi.com/v1/images/search?api_key=").concat(
            dog_api_token,
        )
    }
}

/// Draw which animal-image service to ask this time.
pub fn pick_animal_api() -> (r: u64)
    ensures
        r < ANIMAL_API_COUNT,
{
    random_below(ANIMAL_API_COUNT)
}

} // verus!
