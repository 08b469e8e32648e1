use vstd::prelude::*;

verus! {

/// A registered and uploaded file reference: the durable remote URI the
/// backend handed out, and the content type it was declared with.
#[derive(Debug)]
pub struct GeminiAttachment {
    pub uri: String,
    pub content_type: String,
}

/// The mathematical value of a [`GeminiAttachment`].
pub struct AttachmentV {
    pub uri: Seq<char>,
    pub content_type: Seq<char>,
}

impl View for GeminiAttachment {
    type V = AttachmentV;

    open spec fn view(&self) -> AttachmentV {
        AttachmentV { uri: self.uri@, content_type: self.content_type@ }
    }
}

impl DeepView for GeminiAttachment {
    type V = AttachmentV;

    open spec fn deep_view(&self) -> AttachmentV {
        self.view()
    }
}

impl Clone for GeminiAttachment {
    fn clone(&self) -> (res: Self)
        ensures
            res@ == self@,
    {
        GeminiAttachment { uri: self.uri.clone(), content_type: self.content_type.clone() }
    }
}

/// The content type `mime_guess` infers for a path, if any: a function of the
/// path alone, looked up in a static table keyed by the path's extension.
pub uninterp spec fn mime_guess_of(path: Seq<char>) -> Option<Seq<char>>;

/// Relies on `mime_guess::from_path` and `MimeGuess::first`: the first
/// guessed content type for the path's extension, or nothing for an unknown
/// extension; the guess depends on the path alone.
#[verifier::external_body]
fn guess_mime(path: &str) -> (r: Option<String>)
    ensures
        (match r {
            Some(m) => mime_guess_of(path@) == Some(m@),
            None => mime_guess_of(path@) is None,
        }),
{
    match mime_guess::from_path(path).first() {
        Some(m) => Some(m.to_string()),
        None => None,
    }
}

/// The direct-download URL of a remote file, built from the transport token
/// and the file's path.
pub open spec fn file_url_spec(token: Seq<char>, path: Seq<char>) -> Seq<char> {
    "https://api.telegram.org/file/bot"@ + token + "/"@ + path
}

/// Build the direct-download URL for one remote file.
pub fn build_file_url(token: &str, path: &str) -> (r: String)
    ensures
        r@ == file_url_spec(token@, path@),
{
    let mut r = String::new();
    r.append("https://api.telegram.org/file/bot");
    r.append(token);
    r.append("/");
    r.append(path);
    proof {
        assert(r@ =~= file_url_spec(token@, path@));
    }
    r
}

/// Everything after the last `'/'` of a path; the whole path when it has
/// none.
pub open spec fn after_last_slash(s: Seq<char>) -> Seq<char>
    decreases s.len(),
{
    if s.len() == 0 {
        Seq::<char>::empty()
    } else if s.last() == '/' {
        Seq::<char>::empty()
    } else {
        after_last_slash(s.drop_last()).push(s.last())
    }
}

proof fn lemma_after_last_slash_suffix(s: Seq<char>, i: int)
    requires
        0 <= i <= s.len(),
        forall|j: int| i <= j < s.len() ==> s[j] != '/',
        i == 0 || s[i - 1] == '/',
    ensures
        after_last_slash(s) == s.subrange(i, s.len() as int),
    decreases s.len(),
{
    if i < s.len() {
        lemma_after_last_slash_suffix(s.drop_last(), i);
        assert(s.drop_last().subrange(i, s.len() - 1) =~= s.subrange(i, s.len() - 1));
        assert(s.subrange(i, s.len() - 1).push(s.last()) =~= s.subrange(i, s.len() as int));
    } else {
        if i == 0 {
            assert(s.subrange(0, 0) =~= Seq::<char>::empty());
        } else {
            assert(s.last() == s[i - 1]);
            assert(s.subrange(i, s.len() as int) =~= Seq::<char>::empty());
        }
    }
}

/// The display name of a file: what follows the last `'/'` of its path.
pub fn file_name_of_path(path: &str) -> (r: String)
    ensures
        r@ == after_last_slash(path@),
{
    let n = path.unicode_len();
    let mut i = n;
    let mut found = false;
    while !found && i > 0
        invariant
            i <= n,
            n == path@.len(),
            forall|j: int| i <= j < n ==> path@[j] != '/',
            found ==> 0 < i && path@[i - 1] == '/',
        decreases (if found {
            0int
        } else {
            1int
        }), i,
    {
        if path.get_char(i - 1) == '/' {
            found = true;
        } else {
            i = i - 1;
        }
    }
    proof {
        lemma_after_last_slash_suffix(path@, i as int);
    }
    let tail = path.substring_char(i, n);
    String::from_str(tail)
}

/// Everything the network side needs to resolve one attachment: the URL to
/// fetch, the display name to register the file under, and the content type
/// to declare.
#[derive(Debug)]
pub struct AttachmentPlan {
    pub url: String,
    pub file_name: String,
    pub mime: String,
}

/// Plan the resolution of one attachment from its direct-download URL. Fails
/// exactly when no content type can be inferred from the URL; the fetching,
/// registration and upload themselves belong to the network side, which turns
/// a successful plan into a [`GeminiAttachment`].
pub fn plan_upload(url: String) -> (r: Result<AttachmentPlan, crate::message::BotError>)
    ensures
        (match r {
            Ok(p) => {
                &&& mime_guess_of(url@) == Some(p.mime@)
                &&& p.url@ == url@
                &&& p.file_name@ == after_last_slash(url@)
            },
            Err(e) => {
                &&& mime_guess_of(url@) is None
                &&& e == crate::message::BotError::AttachmentResolutionFailed
            },
        }),
{
    match guess_mime(url.as_str()) {
        Some(mime) => {
            let file_name = file_name_of_path(url.as_str());
            Ok(AttachmentPlan { url, file_name, mime })
        },
        None => Err(crate::message::BotError::AttachmentResolutionFailed),
    }
}

} // verus!
