//! Custom-emoji tags in message text.
//!
//! A custom emoji appears in message text as `<:name:id>`, an animated one
//! as `<a:name:id>`, with `name` made of word characters and `id` of
//! digits. The emoji-copying commands scan a message for every such tag —
//! leftmost first, never overlapping — and turn each into the name, the
//! asset URL and the content type needed to upload it elsewhere.

use vstd::prelude::*;

verus! {

/// A word character, as tag names allow.
pub open spec fn is_name_char(c: char) -> bool {
    ('a' <= c && c <= 'z') || ('A' <= c && c <= 'Z') || ('0' <= c && c <= '9') || c == '_'
}

pub open spec fn is_tag_digit(c: char) -> bool {
    '0' <= c && c <= '9'
}

/// End of the run of name characters starting at `j`.
pub open spec fn name_run_end(s: Seq<char>, j: int) -> int
    decreases s.len() - j,
{
    if j < s.len() && is_name_char(s[j]) {
        name_run_end(s, j + 1)
    } else {
        j
    }
}

/// End of the run of digits starting at `j`.
pub open spec fn digit_run_end(s: Seq<char>, j: int) -> int
    decreases s.len() - j,
{
    if j < s.len() && is_tag_digit(s[j]) {
        digit_run_end(s, j + 1)
    } else {
        j
    }
}

/// Whether a tag begins exactly at `i`, and if so where it ends and what
/// its name and id are. The name run must be non-empty and followed by
/// `:`, the digit run non-empty and followed by `>`.
pub open spec fn tag_at(s: Seq<char>, i: int, animated: bool) -> Option<
    (int, Seq<char>, Seq<char>),
> {
    let p = if animated {
        i + 3
    } else {
        i + 2
    };
    let prefix_ok = if animated {
        i + 2 < s.len() && s[i] == '<' && s[i + 1] == 'a' && s[i + 2] == ':'
    } else {
        i + 1 < s.len() && s[i] == '<' && s[i + 1] == ':'
    };
    if prefix_ok {
        let ne = name_run_end(s, p);
        if ne > p && ne < s.len() && s[ne] == ':' {
            let de = digit_run_end(s, ne + 1);
            if de > ne + 1 && de < s.len() && s[de] == '>' {
                Some((de + 1, s.subrange(p, ne), s.subrange(ne + 1, de)))
            } else {
                None
            }
        } else {
            None
        }
    } else {
        None
    }
}

/// Every `(name, id)` tag in `s` from position `i` on: leftmost matches
/// first, and scanning resumes after each match, so matches never overlap.
pub open spec fn scan_tags(s: Seq<char>, i: int, animated: bool) -> Seq<(Seq<char>, Seq<char>)>
    decreases s.len() - i when i >= 0
{
    if i >= s.len() {
        Seq::empty()
    } else {
        match tag_at(s, i, animated) {
            Some((end, name, id)) => {
                if end > i {
                    seq![(name, id)] + scan_tags(s, end, animated)
                } else {
                    Seq::empty()
                }
            },
            None => scan_tags(s, i + 1, animated),
        }
    }
}

/// The asset URL a tag denotes: the emoji CDN, the id, and the format the
/// animation flag selects.
pub open spec fn spec_emoji_url(id: Seq<char>, animated: bool) -> Seq<char> {
    "https://cdn.discordapp.com/emojis/"@ + id + "."@ + (if animated {
        "gif"@
    } else {
        "png"@
    })
}

/// The content type of that asset.
pub open spec fn spec_emoji_content_type(animated: bool) -> Seq<char> {
    "image/"@ + (if animated {
        "gif"@
    } else {
        "png"@
    })
}

/// An emoji about to be uploaded: its name, where its image lives, and the
/// image's content type.
pub struct NewEmoji {
    pub name: String,
    pub url: String,
    pub content_type: String,
}

/// Whether `e` is the upload form of the tag `(name, id)` with the given
/// animation flag.
pub open spec fn is_upload_of(e: NewEmoji, name: Seq<char>, id: Seq<char>, animated: bool) -> bool {
    &&& e.name@ == name
    &&& e.url@ == spec_emoji_url(id, animated)
    &&& e.content_type@ == spec_emoji_content_type(animated)
}

impl NewEmoji {
    /// Build the upload form of one tag.
    pub fn new(name: &str, id: &str, animated: bool) -> (r: NewEmoji)
        ensures
            is_upload_of(r, name@, id@, animated),
    {
        let format: &str = if animated {
            "gif"
        } else {
            "png"
        };
        let url = String::from_str("https://cdn.discordapp.com/emojis/").concat(id).concat(
            ".",
        ).concat(format);
        let content_type = String::from_str("image/").concat(format);
        NewEmoji { name: name.to_owned(), url, content_type }
    }
}

/// End of the run of name characters starting at `j`.
fn name_run_end_at(s: &str, j: usize, n: usize) -> (r: usize)
    requires
        j <= n,
        n == s@.len(),
    ensures
        r == name_run_end(s@, j as int),
        j <= r <= n,
{
    let mut k = j;
    loop
        invariant
            j <= k <= n,
            n == s@.len(),
            name_run_end(s@, j as int) == name_run_end(s@, k as int),
        ensures
            j <= k <= n,
            k == name_run_end(s@, j as int),
        decreases n - k,
    {
        if k >= n {
            break;
        }
        let c = s.get_char(k);
        let is_name = ('a' <= c && c <= 'z') || ('A' <= c && c <= 'Z') || ('0' <= c && c <= '9')
            || c == '_';
        if !is_name {
            break;
        }
        k = k + 1;
    }
    k
}

/// End of the run of digits starting at `j`.
fn digit_run_end_at(s: &str, j: usize, n: usize) -> (r: usize)
    requires
        j <= n,
        n == s@.len(),
    ensures
        r == digit_run_end(s@, j as int),
        j <= r <= n,
{
    let mut k = j;
    loop
        invariant
            j <= k <= n,
            n == s@.len(),
            digit_run_end(s@, j as int) == digit_run_end(s@, k as int),
        ensures
            j <= k <= n,
            k == digit_run_end(s@, j as int),
        decreases n - k,
    {
        if k >= n {
            break;
        }
        let c = s.get_char(k);
        if !('0' <= c && c <= '9') {
            break;
        }
        k = k + 1;
    }
    k
}

/// Try to read a whole tag beginning exactly at `i`; on success, the name
/// range and the end of the digit range.
fn try_tag_at(s: &str, i: usize, n: usize, animated: bool) -> (r: Option<(usize, usize)>)
    requires
        i < n,
        n == s@.len(),
    ensures
        match r {
            Some((ne, de)) => {
                let p = if animated {
                    i + 3
                } else {
                    i + 2
                };
                &&& p <= ne < n
                &&& ne + 1 <= de < n
                &&& tag_at(s@, i as int, animated) == Some(
                    ((de + 1) as int, s@.subrange(p as int, ne as int), s@.subrange(
                        ne as int + 1,
                        de as int,
                    )),
                )
            },
            None => tag_at(s@, i as int, animated) is None,
        },
{
    let p: usize = if animated {
        if !(n - i > 2 && s.get_char(i) == '<' && s.get_char(i + 1) == 'a' && s.get_char(i + 2)
            == ':') {
            return None;
        }
        i + 3
    } else {
        if !(n - i > 1 && s.get_char(i) == '<' && s.get_char(i + 1) == ':') {
            return None;
        }
        i + 2
    };
    let ne = name_run_end_at(s, p, n);
    if !(ne > p && ne < n && s.get_char(ne) == ':') {
        return None;
    }
    let de = digit_run_end_at(s, ne + 1, n);
    if !(de > ne + 1 && de < n && s.get_char(de) == '>') {
        return None;
    }
    Some((ne, de))
}

/// Scan `content` for every tag with the given animation flag, appending
/// the upload form of each to `out` in match order.
#[verifier::loop_isolation(false)]
fn collect_tags(content: &str, animated: bool, out: &mut Vec<NewEmoji>)
    ensures
        final(out)@.len() == old(out)@.len() + scan_tags(content@, 0, animated).len(),
        forall|k: int| 0 <= k < old(out)@.len() ==> final(out)@[k] == old(out)@[k],
        forall|k: int|
            0 <= k < scan_tags(content@, 0, animated).len() ==> is_upload_of(
                final(out)@[old(out)@.len() + k],
                scan_tags(content@, 0, animated)[k].0,
                scan_tags(content@, 0, animated)[k].1,
                animated,
            ),
{
    let n = content.unicode_len();
    let base = out.len();
    let ghost whole = scan_tags(content@, 0, animated);
    let ghost mut done: Seq<(Seq<char>, Seq<char>)> = Seq::empty();
    let mut i: usize = 0;
    proof {
        assert(done + scan_tags(content@, 0, animated) =~= whole);
    }
    while i < n
        invariant
            i <= n,
            n == content@.len(),
            out@.len() == base + done.len(),
            whole == done + scan_tags(content@, i as int, animated),
            forall|k: int| 0 <= k < base ==> out@[k] == old(out)@[k],
            forall|k: int|
                0 <= k < done.len() ==> is_upload_of(
                    out@[base + k],
                    done[k].0,
                    done[k].1,
                    animated,
                ),
        decreases n - i,
    {
        match try_tag_at(content, i, n, animated) {
            None => {
                i = i + 1;
            },
            Some((ne, de)) => {
                let p: usize = if animated {
                    i + 3
                } else {
                    i + 2
                };
                let name = content.substring_char(p, ne);
                let id = content.substring_char(ne + 1, de);
                let e = NewEmoji::new(name, id, animated);
                let ghost pair = (content@.subrange(p as int, ne as int), content@.subrange(
                    ne as int + 1,
                    de as int,
                ));
                out.push(e);
                proof {
                    assert(scan_tags(content@, i as int, animated) == seq![pair] + scan_tags(
                        content@,
                        de + 1,
                        animated,
                    ));
                    done = done + seq![pair];
                    assert(whole =~= done + scan_tags(content@, de + 1, animated));
                }
                i = de + 1;
            },
        }
    }
    proof {
        assert(scan_tags(content@, n as int, animated) =~= Seq::<(Seq<char>, Seq<char>)>::empty());
        assert(whole =~= done);
    }
}

/// What the base64 encoding of a byte string is; a function of the bytes
/// alone.
pub uninterp spec fn base64_of(bytes: Seq<u8>) -> Seq<char>;

/// Relies on base64's standard-alphabet engine: a pure function of the
/// input, four output characters (with padding) for every started group of
/// three bytes.
#[verifier::external_body]
fn encode_base64(bytes: &Vec<u8>) -> (r: String)
    ensures
        r@ == base64_of(bytes@),
        r@.len() == 4 * ((bytes@.len() + 2) / 3),
{
    base64::Engine::encode(&base64::engine::general_purpose::STANDARD, bytes)
}

/// The `data:` URI under which a fetched emoji image is handed to the
/// guild-emoji upload call.
pub fn emoji_data_uri(content_type: &str, bytes: &Vec<u8>) -> (r: String)
    ensures
        r@ == "data:"@ + content_type@ + ";base64,"@ + base64_of(bytes@),
{
    let encoded = encode_base64(bytes);
    String::from_str("data:").concat(content_type).concat(";base64,").concat(encoded.as_str())
}

/// Whether the guild already has an emoji under this name — uploading
/// would then be refused up front.
pub fn name_taken(existing: &Vec<String>, name: &String) -> (r: bool)
    ensures
        r == exists|i: int| 0 <= i < existing@.len() && existing@[i]@ == name@,
{
    let n = existing.len();
    let mut i: usize = 0;
    while i < n
        invariant
            i <= n,
            n == existing@.len(),
            forall|j: int| 0 <= j < i ==> existing@[j]@ != name@,
        decreases n - i,
    {
        if existing[i].eq(name) {
            return true;
        }
        i = i + 1;
    }
    false
}

/// Every custom-emoji tag of the message, still emoji first and animated
/// emoji after, each as its upload form.
pub fn extract_emojis(content: String) -> (r: Vec<NewEmoji>)
    ensures
        ({
            let plain = scan_tags(content@, 0, false);
            let anim = scan_tags(content@, 0, true);
            &&& r@.len() == plain.len() + anim.len()
            &&& forall|k: int|
                0 <= k < plain.len() ==> is_upload_of(r@[k], plain[k].0, plain[k].1, false)
            &&& forall|k: int|
                0 <= k < anim.len() ==> is_upload_of(
                    r@[plain.len() + k],
                    anim[k].0,
                    anim[k].1,
                    true,
                )
        }),
{
    let mut r: Vec<NewEmoji> = Vec::new();
    collect_tags(content.as_str(), false, &mut r);
    collect_tags(content.as_str(), true, &mut r);
    r
}

} // verus!
