//! What kind of media a post's link points at.
use vstd::prelude::*;
use vstd::string::StringExecFns;

verus! {

/// How large post previews are drawn.
#[derive(Debug, Copy, Clone, PartialEq, Eq, PartialOrd, Ord)]
pub enum ViewMode {
    Default,
    BigImage,
}

pub open spec fn has_prefix(s: Seq<char>, p: Seq<char>) -> bool {
    p.len() <= s.len() && s.subrange(0, p.len() as int) == p
}

pub open spec fn has_suffix(s: Seq<char>, p: Seq<char>) -> bool {
    p.len() <= s.len() && s.subrange(s.len() - p.len(), s.len() as int) == p
}

/// Whether `s[from..from + p.len()]` is `p`.
fn matches_at(s: &str, from: usize, p: &str) -> (r: bool)
    requires
        from + p@.len() <= s@.len(),
    ensures
        r == (s@.subrange(from as int, from + p@.len()) == p@),
{
    let n = p.unicode_len();
    let total = s.unicode_len();
    let mut i: usize = 0;
    while i < n
        invariant
            n == p@.len(),
            total == s@.len(),
            from + n <= s@.len(),
            0 <= i <= n,
            s@.subrange(from as int, from + i) == p@.take(i as int),
        decreases n - i,
    {
        if s.get_char(from + i) != p.get_char(i) {
            proof {
                assert(s@.subrange(from as int, from + n)[i as int] != p@[i as int]);
            }
            return false;
        }
        proof {
            assert(s@.subrange(from as int, from + i + 1) =~= p@.take(i + 1));
        }
        i = i + 1;
    }
    proof {
        assert(p@.take(n as int) =~= p@);
    }
    true
}

pub fn starts_with(s: &str, p: &str) -> (r: bool)
    ensures
        r == has_prefix(s@, p@),
{
    let n = s.unicode_len();
    let m = p.unicode_len();
    if m > n {
        false
    } else {
        matches_at(s, 0, p)
    }
}

pub fn ends_with(s: &str, p: &str) -> (r: bool)
    ensures
        r == has_suffix(s@, p@),
{
    let n = s.unicode_len();
    let m = p.unicode_len();
    if m > n {
        false
    } else {
        matches_at(s, n - m, p)
    }
}

/// A link to a video page of a host whose player can be embedded.
pub open spec fn magic_embed_spec(url: Seq<char>) -> bool {
    has_prefix(url, "https://redgifs.com/watch"@) || has_prefix(url, "https://www.redgifs.com/watch"@)
}

pub fn is_magic_embed(url: &str) -> (r: bool)
    ensures
        r == magic_embed_spec(url@),
{
    starts_with(url, "https://redgifs.com/watch") || starts_with(url, "https://www.redgifs.com/watch")
}

pub open spec fn image_spec(url: Seq<char>) -> bool {
    ||| has_suffix(url, ".png"@)
    ||| has_suffix(url, ".webp"@)
    ||| has_suffix(url, ".jpeg"@)
    ||| has_suffix(url, ".jpg"@)
    ||| has_suffix(url, ".gif"@)
}

pub fn is_image(url: &str) -> (r: bool)
    ensures
        r == image_spec(url@),
{
    ends_with(url, ".png") || ends_with(url, ".webp") || ends_with(url, ".jpeg") || ends_with(
        url,
        ".jpg",
    ) || ends_with(url, ".gif")
}

pub open spec fn video_spec(url: Seq<char>) -> bool {
    has_suffix(url, ".mp4"@) || has_suffix(url, ".webm"@)
}

pub fn is_video(url: &str) -> (r: bool)
    ensures
        r == video_spec(url@),
{
    ends_with(url, ".mp4") || ends_with(url, ".webm")
}

/// The position just after the last `/` among the first `end` characters of
/// `s`, or 0.
pub open spec fn after_last_slash(s: Seq<char>, end: int) -> int
    decreases end,
{
    if end <= 0 {
        0
    } else if s[end - 1] == '/' {
        end
    } else {
        after_last_slash(s, end - 1)
    }
}

/// The last `/`-separated segment of `url`.
pub open spec fn last_segment(url: Seq<char>) -> Seq<char> {
    url.subrange(after_last_slash(url, url.len() as int), url.len() as int)
}

proof fn lemma_after_last_slash_range(s: Seq<char>, end: int)
    requires
        0 <= end <= s.len(),
    ensures
        0 <= after_last_slash(s, end) <= end,
    decreases end,
{
    if end > 0 && s[end - 1] != '/' {
        lemma_after_last_slash_range(s, end - 1);
    }
}

/// The address of the embeddable player for a link that `is_magic_embed`
/// accepts: the player page named by the link's last segment.
pub fn magic_embed_src(url: &str) -> (r: Option<String>)
    ensures
        magic_embed_spec(url@) ==> (r matches Some(src) && src@ == "https://www.redgifs.com/ifr/"@
            + last_segment(url@)),
        !magic_embed_spec(url@) ==> r is None,
{
    if !is_magic_embed(url) {
        return None;
    }
    let n = url.unicode_len();
    let mut j = n;
    while j > 0 && url.get_char(j - 1) != '/'
        invariant
            0 <= j <= n == url@.len(),
            after_last_slash(url@, j as int) == after_last_slash(url@, n as int),
        decreases j,
    {
        j = j - 1;
    }
    proof {
        lemma_after_last_slash_range(url@, n as int);
    }
    let id = url.substring_char(j, n);
    let mut src = String::from_str("https://www.redgifs.com/ifr/");
    src.append(id);
    Some(src)
}

/// The picture shown for a post: its thumbnail, or else its link where the
/// link is to an image.
pub fn thumbnail_for(thumbnail_url: Option<String>, url: Option<String>) -> (r: Option<String>)
    ensures
        r == match thumbnail_url {
            Some(t) => Some(t),
            None => match url {
                Some(u) => if image_spec(u@) {
                    Some(u)
                } else {
                    None
                },
                None => None,
            },
        },
{
    match thumbnail_url {
        Some(t) => Some(t),
        None => match url {
            Some(u) => {
                if is_image(u.as_str()) {
                    Some(u)
                } else {
                    None
                }
            },
            None => None,
        },
    }
}

/// Whether a post shows embedded content: it has embed details, or its link
/// is to a video or to an embeddable player.
pub fn has_embed(
    embed_title: &Option<String>,
    embed_description: &Option<String>,
    embed_video_url: &Option<String>,
    url: &str,
) -> (r: bool)
    ensures
        r == (embed_title is Some || embed_description is Some || embed_video_url is Some
            || video_spec(url@) || magic_embed_spec(url@)),
{
    embed_title.is_some() || embed_description.is_some() || embed_video_url.is_some() || is_video(
        url,
    ) || is_magic_embed(url)
}

} // verus!
