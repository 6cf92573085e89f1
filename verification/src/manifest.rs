//! Reading the remote service's JSON answers and deciding on them.
//!
//! The service answers every query with a JSON document carrying
//! `num_images: int` and `images: array`, each entry holding `sol: int` and
//! `image_files.full_res: string`. This module parses such a document into a
//! plain [`SolManifest`] model — each field pinned to a named, deterministic
//! reading of the answer's text — and makes the two decisions of the
//! pipeline's front end: resolving which sol to use, and extracting the
//! ordered list of full-resolution image URLs.

use vstd::prelude::*;

use crate::errors::PipelineError;

verus! {

/// Whether the text is well-formed JSON: a function of the text alone.
pub uninterp spec fn json_wf(text: Seq<char>) -> bool;

/// The `num_images` field of the parsed text, where the text parses and the
/// field is present as an integer: a function of the text alone.
pub uninterp spec fn num_images_of(text: Seq<char>) -> Option<i64>;

/// The `sol` field of the first (newest) entry of `images` in the parsed
/// text, where present as an integer: a function of the text alone.
pub uninterp spec fn latest_sol_of(text: Seq<char>) -> Option<i64>;

/// The `image_files.full_res` field of entry `i` of `images` in the parsed
/// text, where present as a string: a function of the text alone.
pub uninterp spec fn url_at_of(text: Seq<char>, i: int) -> Option<Seq<char>>;

/// Relies on serde_json::from_str: whether text parses as JSON is a
/// function of the text alone.
#[verifier::external_body]
fn text_is_json(text: &str) -> (r: bool)
    ensures
        r == json_wf(text@),
{
    serde_json::from_str::<serde_json::Value>(text).is_ok()
}

/// Relies on serde_json::from_str, Value::get and Value::as_i64: reads the
/// top-level `num_images` integer out of the text.
#[verifier::external_body]
fn text_num_images(text: &str) -> (r: Option<i64>)
    ensures
        r == num_images_of(text@),
{
    serde_json::from_str::<serde_json::Value>(text)
        .ok()
        .and_then(|v| v.get("num_images").and_then(|n| n.as_i64()))
}

/// Relies on serde_json::from_str, Value::get and Value::as_i64: reads the
/// `sol` integer of the newest entry out of the text.
#[verifier::external_body]
fn text_latest_sol(text: &str) -> (r: Option<i64>)
    ensures
        r == latest_sol_of(text@),
{
    let v = match serde_json::from_str::<serde_json::Value>(text) {
        Ok(v) => v,
        Err(_) => return None,
    };
    v.get("images").and_then(|a| a.get(0)).and_then(|e| e.get("sol")).and_then(|s| s.as_i64())
}

/// Relies on serde_json::from_str, Value::get and Value::as_str: reads the
/// full-resolution URL of entry `i` out of the text, unchanged.
#[verifier::external_body]
fn text_url_at(text: &str, i: usize) -> (r: Option<String>)
    ensures
        r is Some <==> url_at_of(text@, i as int) is Some,
        r matches Some(u) ==> Some(u@) == url_at_of(text@, i as int),
{
    let v = match serde_json::from_str::<serde_json::Value>(text) {
        Ok(v) => v,
        Err(_) => return None,
    };
    v.get("images")
        .and_then(|a| a.get(i))
        .and_then(|e| e.get("image_files"))
        .and_then(|f| f.get("full_res"))
        .and_then(|u| u.as_str())
        .map(String::from)
}

/// What one remote answer says, reduced to the plain values the pipeline
/// reads: the reported image count, the sol of the newest entry, and the
/// full-resolution URLs of the first entries.
///
/// `urls` holds the URLs of entries `0..k` in manifest order, where `k` is
/// the reported count or the index of the first entry whose URL is missing,
/// whichever comes first. A count that is negative asks for no URLs; one
/// larger than `usize::MAX` is capped there, more than any array can hold.
pub struct SolManifest {
    /// The `num_images` field, where present as an integer.
    pub num_images: Option<i64>,
    /// The `sol` field of the first (newest) entry of `images`, where present.
    pub latest_sol: Option<i64>,
    /// The `image_files.full_res` URLs, in manifest order.
    pub urls: Vec<String>,
}

/// The number of URLs a manifest reporting `n` images asks for, as an
/// in-memory count: negative reports ask for none, and a report beyond
/// `usize::MAX` is capped there.
pub open spec fn clamped_count(n: i64) -> int {
    if n < 0 {
        0
    } else if n > usize::MAX {
        usize::MAX as int
    } else {
        n as int
    }
}

fn clamp_count(n: i64) -> (r: usize)
    ensures
        r as int == clamped_count(n),
{
    if n < 0 {
        0
    } else if (n as u64) > (usize::MAX as u64) {
        usize::MAX
    } else {
        n as usize
    }
}

/// What resolving a sol decides, given the request and what the remote
/// answer reported: an explicit request stands when the answer carries an
/// image count and fails as `SolNotFound` when it does not; an absent
/// request takes whatever sol the newest entry reports, and is malformed
/// when there is none.
pub open spec fn resolve_sol_spec(requested: Option<i64>, m: SolManifest) -> Result<
    i64,
    PipelineError,
> {
    match requested {
        Some(s) => if m.num_images is Some {
            Ok(s)
        } else {
            Err(PipelineError::SolNotFound { sol: s })
        },
        None => match m.latest_sol {
            Some(latest) => Ok(latest),
            None => Err(PipelineError::MalformedResponse),
        },
    }
}

/// Resolves which sol to work on. An explicit request is returned unchanged
/// when the answer reports an image count, and fails with `SolNotFound`
/// (carrying the request) when the count is null or absent; with no request,
/// the sol reported by the newest entry is taken.
pub fn resolve_sol(requested: Option<i64>, m: &SolManifest) -> (r: Result<i64, PipelineError>)
    requires
        requested matches Some(s) ==> s >= 0,
    ensures
        r == resolve_sol_spec(requested, *m),
{
    match requested {
        Some(s) => {
            if m.num_images.is_some() {
                Ok(s)
            } else {
                Err(PipelineError::SolNotFound { sol: s })
            }
        },
        None => {
            match m.latest_sol {
                Some(latest) => Ok(latest),
                None => Err(PipelineError::MalformedResponse),
            }
        },
    }
}

/// What extracting the URL list decides: a manifest without an integer image
/// count is malformed; one whose count asks for more URLs than it carries is
/// malformed (a URL field was missing or ill-typed); otherwise exactly the
/// first `clamped_count` URLs are handed out, in manifest order.
pub open spec fn extract_urls_spec(m: SolManifest) -> Result<Seq<Seq<char>>, PipelineError> {
    match m.num_images {
        None => Err(PipelineError::MalformedResponse),
        Some(n) => if m.urls@.len() >= clamped_count(n) {
            Ok(Seq::new(clamped_count(n) as nat, |i: int| m.urls@[i]@))
        } else {
            Err(PipelineError::MalformedResponse)
        },
    }
}

/// Extracts the ordered full-resolution URL list from a manifest:
/// all-or-nothing. The output's order is the manifest's native order.
pub fn extract_urls(m: SolManifest) -> (r: Result<Vec<String>, PipelineError>)
    ensures
        r is Ok <==> extract_urls_spec(m) is Ok,
        r matches Ok(u) ==> (extract_urls_spec(m) matches Ok(su) && u@.len() == su.len()
            && (forall|i: int| 0 <= i < su.len() ==> u@[i]@ == su[i])),
        r matches Err(e) ==> extract_urls_spec(m) == Err::<Seq<Seq<char>>, PipelineError>(e),
{
    match m.num_images {
        None => Err(PipelineError::MalformedResponse),
        Some(n) => {
            let want: usize = clamp_count(n);
            let mut urls = m.urls;
            if urls.len() >= want {
                urls.truncate(want);
                Ok(urls)
            } else {
                Err(PipelineError::MalformedResponse)
            }
        },
    }
}

/// Parses one remote answer's text into the plain model. Text that is not
/// well-formed JSON is a malformed response; any shape of well-formed JSON
/// is accepted, with absent or ill-typed fields read as absent. The model is
/// pinned to the text: each field is the named reading of the text, and
/// `urls` is the longest consecutive run of present URLs, capped at the
/// reported count.
pub fn parse_response(text: &str) -> (r: Result<SolManifest, PipelineError>)
    ensures
        r is Ok <==> json_wf(text@),
        r matches Err(e) ==> e == PipelineError::MalformedResponse,
        r matches Ok(m) ==> {
            &&& m.num_images == num_images_of(text@)
            &&& m.latest_sol == latest_sol_of(text@)
            &&& m.num_images is None ==> m.urls@.len() == 0
            &&& m.num_images matches Some(n) ==> {
                &&& m.urls@.len() <= clamped_count(n)
                &&& forall|i: int|
                    0 <= i < m.urls@.len() ==> ((#[trigger] url_at_of(text@, i)) matches Some(u)
                        && m.urls@[i]@ == u)
                &&& m.urls@.len() < clamped_count(n) ==> url_at_of(
                    text@,
                    m.urls@.len() as int,
                ) is None
            }
        },
{
    if !text_is_json(text) {
        return Err(PipelineError::MalformedResponse);
    }

    let num_images = text_num_images(text);
    let latest_sol = text_latest_sol(text);

    let count: usize = match num_images {
        Some(n) => clamp_count(n),
        None => 0,
    };
    let mut urls: Vec<String> = Vec::new();
    let mut i: usize = 0;
    while i < count
        invariant
            i <= count,
            urls@.len() == i,
            forall|j: int|
                0 <= j < i ==> ((#[trigger] url_at_of(text@, j)) matches Some(u) && urls@[j]@
                    == u),
        ensures
            urls@.len() <= count,
            forall|j: int|
                0 <= j < urls@.len() ==> ((#[trigger] url_at_of(text@, j)) matches Some(u)
                    && urls@[j]@ == u),
            urls@.len() < count ==> url_at_of(text@, urls@.len() as int) is None,
        decreases count - i,
    {
        match text_url_at(text, i) {
            Some(u) => {
                urls.push(u);
                i = i + 1;
            },
            None => {
                break ;
            },
        }
    }

    Ok(SolManifest { num_images, latest_sol, urls })
}

/// Law: an explicitly requested sol is returned unchanged whenever the
/// answer reports an image count, and fails as `SolNotFound`, carrying the
/// request, whenever it does not — never any other outcome.
pub proof fn lemma_resolve_explicit(s: i64, m: SolManifest)
    ensures
        m.num_images is Some ==> resolve_sol_spec(Some(s), m) == Ok::<i64, PipelineError>(s),
        m.num_images is None ==> resolve_sol_spec(Some(s), m) == Err::<i64, PipelineError>(
            PipelineError::SolNotFound { sol: s },
        ),
{
}

/// Law: with no requested sol, resolution returns exactly the sol the
/// newest entry reports, and is malformed exactly when there is none.
pub proof fn lemma_resolve_latest(m: SolManifest)
    ensures
        m.latest_sol matches Some(latest) ==> resolve_sol_spec(None, m) == Ok::<
            i64,
            PipelineError,
        >(latest),
        m.latest_sol is None ==> resolve_sol_spec(None, m) == Err::<i64, PipelineError>(
            PipelineError::MalformedResponse,
        ),
{
}

/// Law: a manifest that reports zero images yields exactly the empty URL
/// list, whatever else it carries.
pub proof fn lemma_empty_manifest(m: SolManifest)
    requires
        m.num_images == Some(0i64),
    ensures
        extract_urls_spec(m) == Ok::<Seq<Seq<char>>, PipelineError>(Seq::<Seq<char>>::empty()),
{
    assert(extract_urls_spec(m)->Ok_0 =~= Seq::<Seq<char>>::empty());
}

} // verus!
