//! The exchange with the image service: what is sent where, and what is read.
use crate::gateway::{
    body_by_size, decode_image_entry, edits_address, edits_endpoint, entries_of_answer,
    entries_read, entry_error, failure_text, fallback_body, fallback_form, first_body, form_fields,
    form_fields_spec, form_view, known_formats, prompt_with_reference_roles, prompt_with_roles,
    references_view, refuses_contract, request_body, returned_formats, upstream_error, ImageRequest,
    ImageSource, ValidatedReference,
};
use crate::json::{items_view, json_read, parse_bytes, text_at, Json, JsonView};
use crate::outside::{base64_decoded, utf8_lossy};
use crate::text::{concat2, owned, result_view, texts_view};
use vstd::prelude::*;

verus! {

/// An exchange with the image service.
#[derive(Debug)]
pub struct ImageExchange {
    /// Where requests are sent.
    pub url: String,
    /// The key that they carry.
    pub key: String,
    pub request: ImageRequest,
    /// What the service is told to draw.
    pub prompt: String,
    /// Whether references are sent along, in a form.
    pub by_form: bool,
    /// How often a request was sent.
    pub posts: usize,
    /// The status of the last answer, in words.
    pub status: String,
    /// The entries of the answer, of which the first `taken` were taken.
    pub entries: Vec<Json>,
    pub taken: usize,
    /// The images of the entries that were taken.
    pub payloads: Vec<Vec<u8>>,
}

/// Where an exchange with the image service stands.
pub struct ExchangeView {
    pub url: Seq<char>,
    pub key: Seq<char>,
    pub request: ImageRequest,
    pub prompt: Seq<char>,
    pub by_form: bool,
    pub posts: int,
    pub status: Seq<char>,
    pub entries: Seq<JsonView>,
    pub taken: int,
    pub payloads: Seq<Seq<u8>>,
}

/// The bytes of images.
pub open spec fn payloads_view(v: Seq<Vec<u8>>) -> Seq<Seq<u8>> {
    v.map_values(|b: Vec<u8>| b@)
}

impl View for ImageExchange {
    type V = ExchangeView;

    open spec fn view(&self) -> ExchangeView {
        ExchangeView {
            url: self.url@,
            key: self.key@,
            request: self.request,
            prompt: self.prompt@,
            by_form: self.by_form,
            posts: self.posts as int,
            status: self.status@,
            entries: items_view(self.entries@),
            taken: self.taken as int,
            payloads: payloads_view(self.payloads@),
        }
    }
}

/// What happens in an exchange.
#[derive(Debug)]
pub enum ImageEvent {
    /// It begins.
    Begin,
    /// The upload of the references could not be built.
    NotBuilt(String),
    /// A request was sent: its status, as a number and in words, or why it failed.
    Sent(Result<(u16, String), String>),
    /// The text of an answer that tells a failure was read.
    FailureRead(Vec<u8>),
    /// The answer was read.
    AnswerRead(Result<Vec<u8>, String>),
    /// An image was downloaded.
    Downloaded(Result<Vec<u8>, String>),
    /// The formats of the images were found, where they are known.
    FormatsFound(Vec<Option<String>>),
}

/// What a request carries.
#[derive(Debug)]
pub enum PostContent {
    /// A JSON body.
    Body(Json),
    /// The text fields of a form, which carries the references besides.
    Form(Vec<(String, String)>),
}

/// What a request carries, as values.
pub enum PostContentView {
    Body(JsonView),
    Form(Seq<(Seq<char>, Seq<char>)>),
}

impl View for PostContent {
    type V = PostContentView;

    open spec fn view(&self) -> PostContentView {
        match self {
            PostContent::Body(j) => PostContentView::Body(j@),
            PostContent::Form(f) => PostContentView::Form(form_view(f@)),
        }
    }
}

/// What an exchange does next.
#[derive(Debug)]
pub enum ImageAction {
    /// Send a request to this address, under this key.
    Post { url: String, key: String, content: PostContent },
    /// Read the text of the last answer, which tells a failure.
    ReadFailure,
    /// Read the last answer.
    ReadAnswer,
    /// Download an image from this address, without any key.
    Download(String),
    /// Find the formats of the images.
    FindFormats,
    /// Save the images in these formats.
    Save(Vec<String>),
    /// Fail with this text.
    Fail(String),
}

/// What an exchange does next, as values.
pub enum ImageActionView {
    Post { url: Seq<char>, key: Seq<char>, content: PostContentView },
    ReadFailure,
    ReadAnswer,
    Download(Seq<char>),
    FindFormats,
    Save(Seq<Seq<char>>),
    Fail(Seq<char>),
}

impl View for ImageAction {
    type V = ImageActionView;

    open spec fn view(&self) -> ImageActionView {
        match self {
            ImageAction::Post { url, key, content } => ImageActionView::Post {
                url: url@,
                key: key@,
                content: content@,
            },
            ImageAction::ReadFailure => ImageActionView::ReadFailure,
            ImageAction::ReadAnswer => ImageActionView::ReadAnswer,
            ImageAction::Download(url) => ImageActionView::Download(url@),
            ImageAction::FindFormats => ImageActionView::FindFormats,
            ImageAction::Save(formats) => ImageActionView::Save(texts_view(formats@)),
            ImageAction::Fail(e) => ImageActionView::Fail(e@),
        }
    }
}

/// The exchange of a request before it begins: without references it goes to the address of
/// the service, with references to the one for edits.
pub open spec fn fresh_exchange(
    api_url: Seq<char>,
    key: Seq<char>,
    request: ImageRequest,
    references: Seq<ValidatedReference>,
) -> Result<ExchangeView, Seq<char>> {
    let start = ExchangeView {
        url: api_url,
        key,
        request,
        prompt: request.prompt@,
        by_form: false,
        posts: 0,
        status: Seq::empty(),
        entries: Seq::empty(),
        taken: 0,
        payloads: Seq::empty(),
    };
    if references.len() == 0 {
        Ok(start)
    } else {
        match edits_address(api_url) {
            Err(e) => Err(e),
            Ok(url) => Ok(
                ExchangeView {
                    url,
                    prompt: prompt_with_roles(request.prompt@, references_view(references)),
                    by_form: true,
                    ..start
                },
            ),
        }
    }
}

/// Makes the exchange of a request.
pub fn begin_exchange(
    api_url: &str,
    key: &str,
    request: ImageRequest,
    references: &Vec<ValidatedReference>,
) -> (r: Result<ImageExchange, String>)
    ensures
        match fresh_exchange(api_url@, key@, request, references@) {
            Ok(x) => r matches Ok(s) && s@ == x,
            Err(e) => r matches Err(f) && f@ == e,
        },
{
    let by_form = references.len() > 0;
    let (url, prompt) = if by_form {
        match edits_endpoint(api_url) {
            Ok(url) => (url, prompt_with_reference_roles(request.prompt.as_str(), references)),
            Err(e) => return Err(e),
        }
    } else {
        (owned(api_url), request.prompt.clone())
    };
    let entries: Vec<Json> = Vec::new();
    let payloads: Vec<Vec<u8>> = Vec::new();
    assert(items_view(entries@) =~= Seq::empty());
    assert(payloads_view(payloads@) =~= Seq::empty());
    Ok(
        ImageExchange {
            url,
            key: owned(key),
            request,
            prompt,
            by_form,
            posts: 0,
            status: String::new(),
            entries,
            taken: 0,
            payloads,
        },
    )
}

/// What the first request carries.
pub open spec fn first_content(x: ExchangeView) -> PostContentView {
    if x.by_form {
        PostContentView::Form(form_fields_spec(x.request, x.prompt, x.request.grok))
    } else {
        PostContentView::Body(first_body(x.request))
    }
}

/// What the request carries that is made again by size.
pub open spec fn second_content(x: ExchangeView) -> PostContentView {
    if x.by_form {
        PostContentView::Form(form_fields_spec(x.request, x.prompt, false))
    } else {
        PostContentView::Body(body_by_size(x.request))
    }
}

/// An exchange that sends a request, always to its own address and under its own key.
pub open spec fn posts(x: ExchangeView, content: PostContentView) -> (
    ExchangeView,
    ImageActionView,
) {
    (
        ExchangeView { posts: x.posts + 1, ..x },
        ImageActionView::Post { url: x.url, key: x.key, content },
    )
}

/// What is said of a request that could not be sent.
pub open spec fn send_error(x: ExchangeView, error: Seq<char>) -> Seq<char> {
    if x.by_form {
        "请求图像编辑接口失败: "@ + error
    } else {
        "请求图像接口失败: "@ + error
    }
}

/// An exchange that has taken one more image.
pub open spec fn with_payload(x: ExchangeView, bytes: Seq<u8>) -> ExchangeView {
    ExchangeView { payloads: x.payloads.push(bytes), taken: x.taken + 1, ..x }
}

/// What an exchange does with the entries that are left, one after the other: an image in an
/// entry is taken, one that is elsewhere is downloaded, and an entry without an image ends the
/// exchange.
pub open spec fn takes_entries(x: ExchangeView) -> (ExchangeView, ImageActionView)
    decreases x.entries.len() - x.taken,
{
    if x.taken < 0 || x.taken >= x.entries.len() {
        (x, ImageActionView::FindFormats)
    } else {
        let entry = x.entries[x.taken];
        match entry_error(entry) {
            Some(e) => (x, ImageActionView::Fail(e)),
            None => match text_at(entry, "b64_json"@) {
                Some(b64) => takes_entries(with_payload(x, base64_decoded(b64)->Ok_0)),
                None => (x, ImageActionView::Download(text_at(entry, "url"@)->0)),
            },
        }
    }
}

/// What an exchange does with what was read from an answer.
pub open spec fn takes_answer(x: ExchangeView, read: Result<JsonView, Seq<char>>) -> (
    ExchangeView,
    ImageActionView,
) {
    match entries_read(read) {
        Err(e) => (x, ImageActionView::Fail(e)),
        Ok(entries) => takes_entries(
            ExchangeView { entries, taken: 0, payloads: Seq::empty(), ..x },
        ),
    }
}

/// Whether an event can happen: an exchange begins once, and a download is over only where an
/// entry is left.
pub open spec fn exchange_can(x: ExchangeView, event: ImageEvent) -> bool {
    &&& event is Begin ==> x.posts == 0
    &&& event is Downloaded ==> x.taken < x.entries.len()
}

/// What an exchange does after an event. A request whose parameters are refused is made again
/// by size, once; only the last answer is read; an image elsewhere is fetched without a key.
pub open spec fn exchanged(x: ExchangeView, event: ImageEvent) -> (ExchangeView, ImageActionView) {
    match event {
        ImageEvent::Begin => posts(x, first_content(x)),
        ImageEvent::NotBuilt(e) => (x, ImageActionView::Fail("构造上传失败: "@ + e@)),
        ImageEvent::Sent(Err(e)) => (x, ImageActionView::Fail(send_error(x, e@))),
        ImageEvent::Sent(Ok(status)) => if x.posts == 1 && refuses_contract(x.request, status.0) {
            posts(x, second_content(x))
        } else {
            (
                ExchangeView { status: status.1@, ..x },
                if 200 <= status.0 < 300 {
                    ImageActionView::ReadAnswer
                } else {
                    ImageActionView::ReadFailure
                },
            )
        },
        ImageEvent::FailureRead(body) => (
            x,
            ImageActionView::Fail(failure_text(x.status, utf8_lossy(body@))),
        ),
        ImageEvent::AnswerRead(Err(e)) => (x, ImageActionView::Fail(e@)),
        ImageEvent::AnswerRead(Ok(body)) => takes_answer(x, json_read(body@)),
        ImageEvent::Downloaded(Err(e)) => (x, ImageActionView::Fail(e@)),
        ImageEvent::Downloaded(Ok(bytes)) => takes_entries(with_payload(x, bytes@)),
        ImageEvent::FormatsFound(formats) => (
            x,
            match known_formats(formats@) {
                Ok(v) => ImageActionView::Save(v),
                Err(e) => ImageActionView::Fail(e),
            },
        ),
    }
}

fn post(x: &mut ImageExchange, content: PostContent) -> (r: ImageAction)
    requires
        old(x).posts < usize::MAX,
    ensures
        (final(x)@, r@) == posts(old(x)@, content@),
{
    x.posts = x.posts + 1;
    ImageAction::Post { url: x.url.clone(), key: x.key.clone(), content }
}

fn take_payload(x: &mut ImageExchange, bytes: Vec<u8>)
    requires
        old(x).taken < old(x).entries.len(),
    ensures
        final(x)@ == with_payload(old(x)@, bytes@),
{
    let ghost before = payloads_view(x.payloads@);
    x.payloads.push(bytes);
    assert(payloads_view(x.payloads@) =~= before.push(bytes@));
    x.taken = x.taken + 1;
}

fn take_entries(x: &mut ImageExchange) -> (r: ImageAction)
    ensures
        (final(x)@, r@) == takes_entries(old(x)@),
{
    let ghost whole = takes_entries(x@);
    while x.taken < x.entries.len()
        invariant
            takes_entries(x@) == whole,
            whole == takes_entries(old(x)@),
        decreases x.entries.len() - x.taken,
    {
        assert(x@.entries[x.taken as int] == x.entries@[x.taken as int]@);
        match decode_image_entry(&x.entries[x.taken]) {
            Ok(ImageSource::Inline(bytes)) => take_payload(x, bytes),
            Ok(ImageSource::Download(url)) => return ImageAction::Download(url),
            Err(e) => return ImageAction::Fail(e),
        }
    }
    ImageAction::FindFormats
}

/// Decides what an exchange does with what was read from an answer.
pub fn take_answer(x: &mut ImageExchange, read: Result<Json, String>) -> (r: ImageAction)
    ensures
        (final(x)@, r@) == takes_answer(old(x)@, result_view(read)),
{
    match entries_of_answer(read) {
        Ok(entries) => {
            x.entries = entries;
            x.taken = 0;
            x.payloads = Vec::new();
            assert(payloads_view(x.payloads@) =~= Seq::empty());
            take_entries(x)
        },
        Err(e) => ImageAction::Fail(e),
    }
}

/// Decides what an exchange does after an event.
pub fn image_step(x: &mut ImageExchange, event: ImageEvent) -> (r: ImageAction)
    requires
        exchange_can(old(x)@, event),
    ensures
        (final(x)@, r@) == exchanged(old(x)@, event),
{
    match event {
        ImageEvent::Begin => {
            let content = if x.by_form {
                PostContent::Form(form_fields(&x.request, x.prompt.as_str(), x.request.grok))
            } else {
                PostContent::Body(request_body(&x.request))
            };
            post(x, content)
        },
        ImageEvent::NotBuilt(e) => ImageAction::Fail(concat2("构造上传失败: ", e.as_str())),
        ImageEvent::Sent(Err(e)) => ImageAction::Fail(
            if x.by_form {
                concat2("请求图像编辑接口失败: ", e.as_str())
            } else {
                concat2("请求图像接口失败: ", e.as_str())
            },
        ),
        ImageEvent::Sent(Ok(status)) => {
            if x.posts == 1 {
                let again = if x.by_form {
                    match fallback_form(&x.request, x.prompt.as_str(), status.0) {
                        Some(fields) => Some(PostContent::Form(fields)),
                        None => None,
                    }
                } else {
                    match fallback_body(&x.request, status.0) {
                        Some(body) => Some(PostContent::Body(body)),
                        None => None,
                    }
                };
                match again {
                    Some(content) => return post(x, content),
                    None => {},
                }
            }
            x.status = status.1;
            if 200 <= status.0 && status.0 < 300 {
                ImageAction::ReadAnswer
            } else {
                ImageAction::ReadFailure
            }
        },
        ImageEvent::FailureRead(body) => ImageAction::Fail(
            upstream_error(x.status.as_str(), &body),
        ),
        ImageEvent::AnswerRead(Err(e)) => ImageAction::Fail(e),
        ImageEvent::AnswerRead(Ok(body)) => take_answer(x, parse_bytes(&body)),
        ImageEvent::Downloaded(Err(e)) => ImageAction::Fail(e),
        ImageEvent::Downloaded(Ok(bytes)) => {
            take_payload(x, bytes);
            take_entries(x)
        },
        ImageEvent::FormatsFound(formats) => match returned_formats(&formats) {
            Ok(v) => ImageAction::Save(v),
            Err(e) => ImageAction::Fail(e),
        },
    }
}

/// What a course of events brings: where the exchange stands, and the requests that it has
/// sent, each with its address and key.
pub open spec fn exchange_course(x: ExchangeView, events: Seq<ImageEvent>) -> (
    ExchangeView,
    Seq<(Seq<char>, Seq<char>)>,
)
    decreases events.len(),
{
    if events.len() == 0 {
        (x, Seq::empty())
    } else {
        let before = exchange_course(x, events.drop_last());
        let (after, action) = exchanged(before.0, events.last());
        match action {
            ImageActionView::Post { url, key, content } => (after, before.1.push((url, key))),
            _ => (after, before.1),
        }
    }
}

/// Whether all events of a course can happen, one after the other.
pub open spec fn exchange_can_go(x: ExchangeView, events: Seq<ImageEvent>) -> bool
    decreases events.len(),
{
    events.len() > 0 ==> exchange_can_go(x, events.drop_last()) && exchange_can(
        exchange_course(x, events.drop_last()).0,
        events.last(),
    )
}

proof fn lemma_entries_keep(x: ExchangeView)
    ensures
        takes_entries(x).0.posts == x.posts,
        takes_entries(x).0.url == x.url,
        takes_entries(x).0.key == x.key,
        takes_entries(x).0.request == x.request,
        !(takes_entries(x).1 is Post),
    decreases x.entries.len() - x.taken,
{
    if 0 <= x.taken < x.entries.len() {
        let entry = x.entries[x.taken];
        if entry_error(entry) is None && text_at(entry, "b64_json"@) is Some {
            lemma_entries_keep(
                with_payload(x, base64_decoded(text_at(entry, "b64_json"@)->0)->Ok_0),
            );
        }
    }
}

/// Whatever happens in an exchange, at most two requests are sent, the second only for a model
/// with parameters of its own, and all of them to the one address of the exchange, under its
/// one key. Without references that is the address of the service, with references the one for
/// edits.
pub proof fn exchange_sends_at_most_two_requests(
    api_url: Seq<char>,
    key: Seq<char>,
    request: ImageRequest,
    references: Seq<ValidatedReference>,
    events: Seq<ImageEvent>,
)
    requires
        fresh_exchange(api_url, key, request, references) is Ok,
        exchange_can_go(fresh_exchange(api_url, key, request, references)->Ok_0, events),
    ensures
        ({
            let start = fresh_exchange(api_url, key, request, references)->Ok_0;
            let sent = exchange_course(start, events).1;
            &&& sent.len() <= 2
            &&& sent.len() == 2 ==> request.grok
            &&& forall|i: int|
                0 <= i < sent.len() ==> #[trigger] sent[i] == (
                    if references.len() == 0 {
                        api_url
                    } else {
                        edits_address(api_url)->Ok_0
                    },
                    key,
                )
        }),
{
    lemma_exchange_course(fresh_exchange(api_url, key, request, references)->Ok_0, events);
}

proof fn lemma_exchange_course(start: ExchangeView, events: Seq<ImageEvent>)
    requires
        start.posts == 0,
        exchange_can_go(start, events),
    ensures
        ({
            let (x, sent) = exchange_course(start, events);
            &&& x.url == start.url && x.key == start.key && x.request == start.request
            &&& sent.len() == x.posts <= 2
            &&& x.posts == 2 ==> start.request.grok
            &&& forall|i: int|
                0 <= i < sent.len() ==> #[trigger] sent[i] == (start.url, start.key)
        }),
    decreases events.len(),
{
    if events.len() > 0 {
        let rest = events.drop_last();
        lemma_exchange_course(start, rest);
        let x = exchange_course(start, rest).0;
        match events.last() {
            ImageEvent::AnswerRead(Ok(body)) => {
                if entries_read(json_read(body@)) is Ok {
                    lemma_entries_keep(
                        ExchangeView {
                            entries: entries_read(json_read(body@))->Ok_0,
                            taken: 0,
                            payloads: Seq::empty(),
                            ..x
                        },
                    );
                }
            },
            ImageEvent::Downloaded(Ok(bytes)) => {
                lemma_entries_keep(with_payload(x, bytes@));
            },
            _ => {},
        }
    }
}

} // verus!
