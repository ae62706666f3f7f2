//! Syntactic validation of the URLs a submission may carry.

use vstd::prelude::*;
use crate::text::{
    is_word, is_word_char, join_lines, join_newlines, matches_at, pattern_at, spec_trimmed,
    trim_str,
};

verus! {

/// Position right after an optional `http://` or `https://` prefix.
pub open spec fn after_scheme(s: Seq<char>) -> int {
    if matches_at(s, 0, "https://"@) {
        "https://"@.len() as int
    } else if matches_at(s, 0, "http://"@) {
        "http://"@.len() as int
    } else {
        0
    }
}

/// Position right after an optional `www.` prefix at `a`.
pub open spec fn after_www(s: Seq<char>, a: int) -> int {
    if matches_at(s, a, "www."@) {
        a + "www."@.len()
    } else {
        a
    }
}

/// The URL shapes accepted: an optional scheme, an optional `www.`, one of
/// the two watch-page hosts, and at least one identifier character after it.
pub open spec fn spec_valid_youtube_url(s: Seq<char>) -> bool {
    let j = after_www(s, after_scheme(s));
    if matches_at(s, j, "youtube.com/watch?v="@) {
        let k = j + "youtube.com/watch?v="@.len();
        k < s.len() && is_word_char(s[k])
    } else if matches_at(s, j, "youtu.be/"@) {
        let k = j + "youtu.be/"@.len();
        k < s.len() && is_word_char(s[k])
    } else {
        false
    }
}

/// Whether the text looks like a watch-page URL of the supported site.
pub fn is_valid_youtube_url(url: &str) -> (r: bool)
    ensures
        r == spec_valid_youtube_url(url@),
{
    let n = url.unicode_len();
    let mut j: usize = 0;
    if pattern_at(url, 0, "https://") {
        j = "https://".unicode_len();
    } else if pattern_at(url, 0, "http://") {
        j = "http://".unicode_len();
    }
    if pattern_at(url, j, "www.") {
        j = j + "www.".unicode_len();
    }
    if pattern_at(url, j, "youtube.com/watch?v=") {
        let k = j + "youtube.com/watch?v=".unicode_len();
        k < n && is_word(url.get_char(k))
    } else if pattern_at(url, j, "youtu.be/") {
        let k = j + "youtu.be/".unicode_len();
        k < n && is_word(url.get_char(k))
    } else {
        false
    }
}

/// The trimmed, non-empty entries of `urls` that pass validation, in order.
pub open spec fn valid_urls_of(urls: Seq<Seq<char>>) -> Seq<Seq<char>>
    decreases urls.len(),
{
    if urls.len() == 0 {
        Seq::empty()
    } else {
        let rest = valid_urls_of(urls.drop_last());
        let t = spec_trimmed(urls.last());
        if t.len() > 0 && spec_valid_youtube_url(t) {
            rest.push(t)
        } else {
            rest
        }
    }
}

/// The trimmed, non-empty entries of `urls` that fail validation, in order.
pub open spec fn invalid_urls_of(urls: Seq<Seq<char>>) -> Seq<Seq<char>>
    decreases urls.len(),
{
    if urls.len() == 0 {
        Seq::empty()
    } else {
        let rest = invalid_urls_of(urls.drop_last());
        let t = spec_trimmed(urls.last());
        if t.len() > 0 && !spec_valid_youtube_url(t) {
            rest.push(t)
        } else {
            rest
        }
    }
}

/// The message reported when some entries fail validation.
pub open spec fn invalid_urls_message(invalid: Seq<Seq<char>>) -> Seq<char> {
    "Invalid YouTube URLs:\n"@ + join_newlines(invalid)
}

/// Trims every entry, drops empty ones, and either returns the valid entries
/// or an error: one naming the invalid entries if any exist, otherwise one
/// reporting that nothing valid was submitted.
pub fn validate_urls(urls: Vec<String>) -> (r: Result<Vec<String>, String>)
    ensures
        match r {
            Ok(v) => {
                &&& invalid_urls_of(urls.deep_view()).len() == 0
                &&& valid_urls_of(urls.deep_view()).len() > 0
                &&& v.deep_view() == valid_urls_of(urls.deep_view())
            },
            Err(m) => {
                &&& invalid_urls_of(urls.deep_view()).len() > 0 || valid_urls_of(
                    urls.deep_view(),
                ).len() == 0
                &&& if invalid_urls_of(urls.deep_view()).len() > 0 {
                    m@ == invalid_urls_message(invalid_urls_of(urls.deep_view()))
                } else {
                    m@ == "No valid URLs provided"@
                }
            },
        },
{
    let ghost all = urls.deep_view();
    let mut valid_list: Vec<String> = Vec::new();
    let mut invalid_list: Vec<String> = Vec::new();
    let mut i: usize = 0;
    proof {
        assert(all.subrange(0, 0) =~= Seq::<Seq<char>>::empty());
        assert(valid_list.deep_view() =~= valid_urls_of(all.subrange(0, 0)));
        assert(invalid_list.deep_view() =~= invalid_urls_of(all.subrange(0, 0)));
    }
    while i < urls.len()
        invariant
            i <= urls@.len(),
            all == urls.deep_view(),
            all.len() == urls@.len(),
            forall|k: int| 0 <= k < urls@.len() ==> all[k] == urls@[k]@,
            valid_list.deep_view() == valid_urls_of(all.subrange(0, i as int)),
            invalid_list.deep_view() == invalid_urls_of(all.subrange(0, i as int)),
        decreases urls@.len() - i,
    {
        let trimmed = trim_str(urls[i].as_str());
        proof {
            let pre = all.subrange(0, i as int);
            let post = all.subrange(0, i + 1);
            assert(post.drop_last() =~= pre);
            assert(post.last() == all[i as int]);
        }
        if trimmed.unicode_len() == 0 {
        } else if is_valid_youtube_url(trimmed.as_str()) {
            let ghost pre_v = valid_list.deep_view();
            valid_list.push(trimmed);
            proof {
                assert(valid_list.deep_view() =~= pre_v.push(spec_trimmed(all[i as int])));
            }
        } else {
            let ghost pre_iv = invalid_list.deep_view();
            invalid_list.push(trimmed);
            proof {
                assert(invalid_list.deep_view() =~= pre_iv.push(spec_trimmed(all[i as int])));
            }
        }
        proof {
            assert(valid_list.deep_view() == valid_urls_of(all.subrange(0, i + 1)));
            assert(invalid_list.deep_view() == invalid_urls_of(all.subrange(0, i + 1)));
        }
        i += 1;
    }
    proof {
        assert(all.subrange(0, urls@.len() as int) =~= all);
    }
    if invalid_list.len() > 0 {
        let mut m = String::from_str("Invalid YouTube URLs:\n");
        let joined = join_lines(&invalid_list);
        m.append(joined.as_str());
        return Err(m);
    }
    if valid_list.len() == 0 {
        return Err(String::from_str("No valid URLs provided"));
    }
    Ok(valid_list)
}

} // verus!
