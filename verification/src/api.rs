//! The OpenAI-compatible image API: endpoint URLs, the requests that are
//! sent, how responses and errors are turned into images and messages.
//!
//! The HTTP exchange itself is done by the caller.
use vstd::prelude::*;
use base64::Engine;
use crate::storage::{normalized_extension, normalize_extension, GenerationMetadata, ImagePayload, Provider};
use crate::text::{
    append_str, blank, chars_of, copy_str, has_prefix, has_suffix, is_blank, push_char, strip_leading,
    strip_trailing, string_from_range, trim, trim_bounds, ends_with_chars,
};

verus! {

proof fn lemma_strip_leading_step(s: Seq<char>, c: char, i: int)
    requires
        0 <= i < s.len(),
        s[i] == c,
    ensures
        strip_leading(s.subrange(i, s.len() as int), c) == strip_leading(
            s.subrange(i + 1, s.len() as int),
            c,
        ),
{
    assert(s.subrange(i, s.len() as int).drop_first() == s.subrange(i + 1, s.len() as int));
}

proof fn lemma_strip_trailing_step(s: Seq<char>, c: char, hi: int)
    requires
        0 < hi <= s.len(),
        s[hi - 1] == c,
    ensures
        strip_trailing(s.subrange(0, hi), c) == strip_trailing(s.subrange(0, hi - 1), c),
{
    assert(s.subrange(0, hi).drop_last() == s.subrange(0, hi - 1));
}

/// The URL of API path `path` under `base`: slashes between them are
/// collapsed to one, and a base that already ends with the path is kept.
pub open spec fn endpoint_url(base: Seq<char>, path: Seq<char>) -> Seq<char> {
    let b = strip_trailing(base, '/');
    let p = strip_leading(path, '/');
    if has_suffix(b, p) {
        b
    } else {
        b.push('/') + p
    }
}

/// The URL of API path `path` under the base URL `base_url`.
pub fn endpoint(base_url: &str, path: &str) -> (url: String)
    ensures
        url@ == endpoint_url(base_url@, path@),
{
    let b = chars_of(base_url);
    let mut hi: usize = b.len();
    assert(b@.subrange(0, hi as int) == b@);
    while hi > 0 && b[hi - 1] == '/'
        invariant
            hi <= b.len(),
            strip_trailing(b@, '/') == strip_trailing(b@.subrange(0, hi as int), '/'),
        decreases hi,
    {
        proof {
            lemma_strip_trailing_step(b@, '/', hi as int);
        }
        hi -= 1;
    }
    assert(strip_trailing(b@.subrange(0, hi as int), '/') == b@.subrange(0, hi as int));
    let p = chars_of(path);
    let mut lo: usize = 0;
    assert(p@.subrange(0, p.len() as int) == p@);
    while lo < p.len() && p[lo] == '/'
        invariant
            lo <= p.len(),
            strip_leading(p@, '/') == strip_leading(p@.subrange(lo as int, p.len() as int), '/'),
        decreases p.len() - lo,
    {
        proof {
            lemma_strip_leading_step(p@, '/', lo as int);
        }
        lo += 1;
    }
    let ghost pl = p@.subrange(lo as int, p.len() as int);
    assert(strip_leading(pl, '/') == pl);
    let trimmed_base = string_from_range(&b, 0, hi);
    let trimmed_path = string_from_range(&p, lo, p.len());
    let tb = chars_of(trimmed_base.as_str());
    let tp = chars_of(trimmed_path.as_str());
    if ends_with_chars(&tb, &tp) {
        trimmed_base
    } else {
        let mut url = trimmed_base;
        push_char(&mut url, '/');
        append_str(&mut url, trimmed_path.as_str());
        url
    }
}

/// The first 240 characters of the trimmed body.
pub open spec fn summary(body: Seq<char>) -> Seq<char> {
    let t = trim(body);
    if t.len() <= 240 {
        t
    } else {
        t.take(240)
    }
}

/// A short excerpt of a response body for messages.
pub fn body_summary(body: &str) -> (s: String)
    ensures
        s@ == summary(body@),
{
    let cs = chars_of(body);
    let (lo, hi) = trim_bounds(&cs);
    let end = if hi - lo <= 240 {
        hi
    } else {
        lo + 240
    };
    let s = string_from_range(&cs, lo, end);
    assert(hi - lo > 240 ==> cs@.subrange(lo as int, hi as int).take(240) =~= cs@.subrange(
        lo as int,
        lo + 240,
    ));
    s
}

/// The `error` member of a JSON error body, as far as it is read: its
/// `message` member when that is a string, and the member itself when it is
/// a string.
#[derive(Clone, Debug)]
pub struct ApiErrorValue {
    pub message: Option<String>,
    pub text: Option<String>,
}

/// A JSON error body of the form `{"error": .., "message": "..",
/// "detail": ".."}`, each member optional.
#[derive(Clone, Debug)]
pub struct ApiErrorResponse {
    pub error: Option<ApiErrorValue>,
    pub message: Option<String>,
    pub detail: Option<String>,
}

/// The view of an optional string.
pub open spec fn opt_view(o: Option<String>) -> Option<Seq<char>> {
    match o {
        Some(s) => Some(s@),
        None => None,
    }
}

/// The message an error body names: the error's message, else the error
/// text, else `message`, else `detail`.
pub open spec fn named_message(p: ApiErrorResponse) -> Option<Seq<char>> {
    let nested = match p.error {
        Some(e) => match e.message {
            Some(m) => Some(m@),
            None => opt_view(e.text),
        },
        None => None,
    };
    match nested {
        Some(n) => Some(n),
        None => match p.message {
            Some(m) => Some(m@),
            None => opt_view(p.detail),
        },
    }
}

/// What an error message says of a response body: the named message of a
/// parsed error body when it is not blank, else the body's summary.
pub open spec fn detail_text(body: Seq<char>, parsed: Option<ApiErrorResponse>) -> Seq<char> {
    match parsed {
        Some(p) => match named_message(p) {
            Some(m) => if !is_blank(m) {
                m
            } else {
                summary(body)
            },
            None => summary(body),
        },
        None => summary(body),
    }
}

fn copy_opt(o: &Option<String>) -> (r: Option<String>)
    ensures
        opt_view(r) == opt_view(*o),
{
    match o {
        Some(s) => Some(copy_str(s.as_str())),
        None => None,
    }
}

/// What an error message says of a response body; `parsed` is the body
/// read as a JSON error body, `None` when it is not one.
pub fn error_detail(body: &str, parsed: &Option<ApiErrorResponse>) -> (d: String)
    ensures
        d@ == detail_text(body@, *parsed),
{
    let named = match parsed {
        Some(p) => {
            let nested = match &p.error {
                Some(e) => match &e.message {
                    Some(m) => Some(copy_str(m.as_str())),
                    None => copy_opt(&e.text),
                },
                None => None,
            };
            match nested {
                Some(n) => Some(n),
                None => match &p.message {
                    Some(m) => Some(copy_str(m.as_str())),
                    None => copy_opt(&p.detail),
                },
            }
        },
        None => None,
    };
    match named {
        Some(m) => {
            if !blank(m.as_str()) {
                m
            } else {
                body_summary(body)
            }
        },
        None => body_summary(body),
    }
}

/// The message of a failed HTTP response.
pub open spec fn http_error_text(
    action: Seq<char>,
    status: Seq<char>,
    retry_after: Seq<char>,
    detail: Seq<char>,
) -> Seq<char> {
    if detail.len() == 0 {
        action + "失败：HTTP "@ + status + retry_after
    } else {
        action + "失败：HTTP "@ + status + retry_after + "："@ + detail
    }
}

/// The message of a failed HTTP response: what was attempted, the status,
/// the `Retry-After` note and what the body says.
pub fn format_http_error(
    action: &str,
    status: &str,
    retry_after: &str,
    body: &str,
    parsed: &Option<ApiErrorResponse>,
) -> (msg: String)
    ensures
        msg@ == http_error_text(action@, status@, retry_after@, detail_text(body@, *parsed)),
{
    let detail = error_detail(body, parsed);
    let mut msg = copy_str(action);
    append_str(&mut msg, "失败：HTTP ");
    append_str(&mut msg, status);
    append_str(&mut msg, retry_after);
    if chars_of(detail.as_str()).len() != 0 {
        append_str(&mut msg, "：");
        append_str(&mut msg, detail.as_str());
    }
    msg
}

/// The note on a `Retry-After` header: empty when it is absent or blank.
pub fn retry_after_note(value: Option<&str>) -> (note: String)
    ensures
        note@ == match value {
            Some(v) => if !is_blank(v@) {
                "，Retry-After: "@ + v@
            } else {
                Seq::empty()
            },
            None => Seq::empty(),
        },
{
    match value {
        Some(v) => {
            if !blank(v) {
                let mut note = copy_str("，Retry-After: ");
                append_str(&mut note, v);
                note
            } else {
                String::new()
            }
        },
        None => String::new(),
    }
}

/// Why a request got no response.
pub open spec fn failure_reason(timed_out: bool, connect_failed: bool) -> Seq<char> {
    if timed_out {
        "请求超时"@
    } else if connect_failed {
        "连接服务器失败"@
    } else {
        "网络请求失败"@
    }
}

/// The message of a request that got no response: what was attempted, why,
/// the URL, the error and its cause.
pub fn request_error_message(
    action: &str,
    timed_out: bool,
    connect_failed: bool,
    url: &str,
    error: &str,
    cause: Option<&str>,
) -> (msg: String)
    ensures
        msg@ == action@ + "失败："@ + failure_reason(timed_out, connect_failed) + "（"@ + url@
            + "）："@ + error@ + match cause {
            Some(c) => "；原因："@ + c@,
            None => Seq::empty(),
        },
{
    let mut msg = copy_str(action);
    append_str(&mut msg, "失败：");
    if timed_out {
        append_str(&mut msg, "请求超时");
    } else if connect_failed {
        append_str(&mut msg, "连接服务器失败");
    } else {
        append_str(&mut msg, "网络请求失败");
    }
    append_str(&mut msg, "（");
    append_str(&mut msg, url);
    append_str(&mut msg, "）：");
    append_str(&mut msg, error);
    if let Some(c) = cause {
        append_str(&mut msg, "；原因：");
        append_str(&mut msg, c);
    }
    msg
}

/// The message of a response body that is not of the expected form.
pub fn invalid_response_message(what: &str, body: &str) -> (msg: String)
    ensures
        msg@ == what@ + "格式无效："@ + summary(body@),
{
    let mut msg = copy_str(what);
    append_str(&mut msg, "格式无效：");
    let s = body_summary(body);
    append_str(&mut msg, s.as_str());
    msg
}

/// A request for the model list of a provider.
#[derive(Clone, Debug)]
pub struct ModelsRequest {
    pub url: String,
    /// The bearer token, sent only when the key is not blank.
    pub bearer: Option<String>,
}

/// The model-list request for `provider`; a blank base URL is refused.
pub fn models_request(provider: &Provider) -> (r: Result<ModelsRequest, String>)
    ensures
        is_blank(provider.base_url@) ==> (r matches Err(e) && e@
            == "API 提供商未配置 Base URL，无法获取模型"@),
        !is_blank(provider.base_url@) ==> (r matches Ok(q) && q.url@ == endpoint_url(
            provider.base_url@,
            "models"@,
        ) && opt_view(q.bearer) == if is_blank(provider.api_key@) {
            None
        } else {
            Some(provider.api_key@)
        }),
{
    if blank(provider.base_url.as_str()) {
        return Err(copy_str("API 提供商未配置 Base URL，无法获取模型"));
    }
    let url = endpoint(provider.base_url.as_str(), "models");
    let bearer = if !blank(provider.api_key.as_str()) {
        Some(copy_str(provider.api_key.as_str()))
    } else {
        None
    };
    Ok(ModelsRequest { url, bearer })
}

/// The model ids of a list that are not blank, in order.
pub open spec fn usable_models(ids: Seq<Seq<char>>) -> Seq<Seq<char>>
    decreases ids.len(),
{
    if ids.len() == 0 {
        Seq::empty()
    } else {
        let rest = usable_models(ids.drop_last());
        if is_blank(ids.last()) {
            rest
        } else {
            rest.push(ids.last())
        }
    }
}

/// The usable models of a model-list response; a list without any is an
/// error.
pub fn collect_models(ids: Vec<String>) -> (r: Result<Vec<String>, String>)
    ensures
        usable_models(crate::storage::strings_view(ids@)).len() == 0 ==> (r matches Err(e) && e@
            == "供应商没有返回可用模型"@),
        usable_models(crate::storage::strings_view(ids@)).len() > 0 ==> (r matches Ok(ms)
            && crate::storage::strings_view(ms@) == usable_models(
            crate::storage::strings_view(ids@),
        )),
{
    let ghost all = crate::storage::strings_view(ids@);
    let mut out: Vec<String> = Vec::new();
    let mut i: usize = 0;
    while i < ids.len()
        invariant
            i <= ids.len(),
            all == crate::storage::strings_view(ids@),
            crate::storage::strings_view(out@) == usable_models(all.take(i as int)),
        decreases ids.len() - i,
    {
        let id = ids[i].as_str();
        if !blank(id) {
            out.push(copy_str(id));
        }
        proof {
            let t = all.take(i + 1);
            assert(t.drop_last() == all.take(i as int));
            assert(t.last() == ids@[i as int]@);
            assert(crate::storage::strings_view(out@) =~= usable_models(t));
        }
        i += 1;
    }
    assert(all.take(ids.len() as int) == all);
    if out.len() == 0 {
        Err(copy_str("供应商没有返回可用模型"))
    } else {
        Ok(out)
    }
}

/// The image size asked for a resolution choice: the two portrait and
/// landscape sizes are recognized, everything else is the square size.
pub open spec fn size_for(resolution: Seq<char>) -> Seq<char> {
    let r = trim(resolution);
    if r == "1024 × 1792"@ || r == "1024x1792"@ {
        "1024x1792"@
    } else if r == "1792 × 1024"@ || r == "1792x1024"@ {
        "1792x1024"@
    } else {
        "1024x1024"@
    }
}

/// The image size asked for a resolution choice.
pub fn image_size(resolution: &str) -> (size: &'static str)
    ensures
        size@ == size_for(resolution@),
{
    let cs = chars_of(resolution);
    let (lo, hi) = trim_bounds(&cs);
    let t = string_from_range(&cs, lo, hi);
    let r = chars_of(t.as_str());
    if crate::text::chars_are(&r, "1024 × 1792") || crate::text::chars_are(&r, "1024x1792") {
        "1024x1792"
    } else if crate::text::chars_are(&r, "1792 × 1024") || crate::text::chars_are(&r, "1792x1024") {
        "1792x1024"
    } else {
        "1024x1024"
    }
}

/// `quantity.clamp(1, 10)`.
pub open spec fn clamped_quantity(q: u32) -> u32 {
    if q < 1 {
        1
    } else if q > 10 {
        10
    } else {
        q
    }
}

/// The number of images of one request: between 1 and 10.
pub fn clamp_quantity(quantity: u32) -> (n: u32)
    ensures
        n == clamped_quantity(quantity),
        1 <= n <= 10,
{
    if quantity < 1 {
        1
    } else if quantity > 10 {
        10
    } else {
        quantity
    }
}

/// A request for images.
#[derive(Clone, Debug)]
pub struct ImageRequest {
    pub url: String,
    pub api_key: String,
    pub model: String,
    pub prompt: String,
    pub n: u32,
    pub size: &'static str,
}

/// The image request for `provider`. A blank base URL, key or model is
/// refused, checked in that order.
pub fn image_request(provider: &Provider, prompt: &str, resolution: &str, quantity: u32) -> (r:
    Result<ImageRequest, String>)
    ensures
        is_blank(provider.base_url@) ==> (r matches Err(e) && e@ == "API 提供商未配置 Base URL"@),
        !is_blank(provider.base_url@) && is_blank(provider.api_key@) ==> (r matches Err(e) && e@
            == "API 提供商未配置 API Key"@),
        !is_blank(provider.base_url@) && !is_blank(provider.api_key@) && is_blank(provider.model@)
            ==> (r matches Err(e) && e@ == "API 提供商未配置模型"@),
        !is_blank(provider.base_url@) && !is_blank(provider.api_key@) && !is_blank(provider.model@)
            ==> (r matches Ok(q) && q.url@ == endpoint_url(provider.base_url@, "images/generations"@)
            && q.api_key@ == provider.api_key@ && q.model@ == provider.model@ && q.prompt@ == prompt@
            && q.n == clamped_quantity(quantity) && q.size@ == size_for(resolution@)),
{
    if blank(provider.base_url.as_str()) {
        return Err(copy_str("API 提供商未配置 Base URL"));
    }
    if blank(provider.api_key.as_str()) {
        return Err(copy_str("API 提供商未配置 API Key"));
    }
    if blank(provider.model.as_str()) {
        return Err(copy_str("API 提供商未配置模型"));
    }
    Ok(
        ImageRequest {
            url: endpoint(provider.base_url.as_str(), "images/generations"),
            api_key: copy_str(provider.api_key.as_str()),
            model: copy_str(provider.model.as_str()),
            prompt: copy_str(prompt),
            n: clamp_quantity(quantity),
            size: image_size(resolution),
        },
    )
}

/// Where the bytes of one returned image come from.
#[derive(Clone, Debug)]
pub enum ImageSource {
    /// Base64 data in the response.
    Encoded(String),
    /// A URL to download.
    Download(String),
    /// Neither is given.
    Missing,
}

/// The source of one returned image: its base64 data when given, else its
/// URL when that is not blank.
pub fn image_source(b64_json: Option<String>, url: Option<String>) -> (s: ImageSource)
    ensures
        b64_json matches Some(d) ==> (s matches ImageSource::Encoded(e) && e@ == d@),
        b64_json is None ==> match url {
            Some(u) => if is_blank(u@) {
                s is Missing
            } else {
                s matches ImageSource::Download(v) && v@ == u@
            },
            None => s is Missing,
        },
{
    if let Some(d) = b64_json {
        return ImageSource::Encoded(d);
    }
    match url {
        Some(u) => {
            if blank(u.as_str()) {
                ImageSource::Missing
            } else {
                ImageSource::Download(u)
            }
        },
        None => ImageSource::Missing,
    }
}

/// The answer for a returned image with neither data nor URL.
pub fn missing_image_message() -> (m: String)
    ensures
        m@ == "图片响应缺少 b64_json 或 url"@,
{
    copy_str("图片响应缺少 b64_json 或 url")
}

/// A response must return at least one image.
pub fn check_image_count(count: usize) -> (r: Result<(), String>)
    ensures
        r is Ok <==> count > 0,
        r matches Err(e) ==> e@ == "图片接口没有返回图片"@,
{
    if count == 0 {
        Err(copy_str("图片接口没有返回图片"))
    } else {
        Ok(())
    }
}

/// The PNG file signature.
pub open spec fn png_signature() -> Seq<u8> {
    seq![0x89u8, 0x50u8, 0x4eu8, 0x47u8, 0x0du8, 0x0au8, 0x1au8, 0x0au8]
}

/// The JPEG file signature.
pub open spec fn jpeg_signature() -> Seq<u8> {
    seq![0xffu8, 0xd8u8, 0xffu8]
}

/// `RIFF`, which starts a WebP file.
pub open spec fn riff_tag() -> Seq<u8> {
    seq![0x52u8, 0x49u8, 0x46u8, 0x46u8]
}

/// `WEBP`, at bytes 8 to 12 of a WebP file.
pub open spec fn webp_tag() -> Seq<u8> {
    seq![0x57u8, 0x45u8, 0x42u8, 0x50u8]
}

/// `prefix` starts `b`.
pub open spec fn starts_bytes(b: Seq<u8>, prefix: Seq<u8>) -> bool {
    prefix.len() <= b.len() && b.subrange(0, prefix.len() as int) == prefix
}

/// The extension of image bytes: what their signature says, else what the
/// requested format says (see [`normalized_extension`]).
pub open spec fn detected_extension(b: Seq<u8>, fallback: Seq<char>) -> Seq<char> {
    if starts_bytes(b, png_signature()) {
        "png"@
    } else if starts_bytes(b, jpeg_signature()) {
        "jpg"@
    } else if starts_bytes(b, riff_tag()) && b.len() >= 12 && b.subrange(8, 12) == webp_tag() {
        "webp"@
    } else {
        normalized_extension(fallback)
    }
}

fn bytes_at(b: &[u8], off: usize, expected: &Vec<u8>) -> (r: bool)
    ensures
        r == (off + expected@.len() <= b@.len() && b@.subrange(
            off as int,
            off + expected@.len(),
        ) == expected@),
{
    if expected.len() > b.len() || off > b.len() - expected.len() {
        return false;
    }
    let mut i: usize = 0;
    while i < expected.len()
        invariant
            off + expected.len() <= b.len(),
            i <= expected.len(),
            forall|j: int| 0 <= j < i ==> b@[off + j] == expected@[j],
        decreases expected.len() - i,
    {
        if b[off + i] != expected[i] {
            assert(b@.subrange(off as int, off + expected@.len())[i as int] == b@[off + i]);
            return false;
        }
        i += 1;
    }
    assert(b@.subrange(off as int, off + expected@.len()) =~= expected@);
    true
}

/// The extension of image bytes, by their signature, else by the requested
/// format.
pub fn image_extension(bytes: &[u8], fallback: &str) -> (ext: String)
    ensures
        ext@ == detected_extension(bytes@, fallback@),
{
    let png: Vec<u8> = vec![0x89u8, 0x50u8, 0x4eu8, 0x47u8, 0x0du8, 0x0au8, 0x1au8, 0x0au8];
    let jpeg: Vec<u8> = vec![0xffu8, 0xd8u8, 0xffu8];
    let riff: Vec<u8> = vec![0x52u8, 0x49u8, 0x46u8, 0x46u8];
    let webp: Vec<u8> = vec![0x57u8, 0x45u8, 0x42u8, 0x50u8];
    assert(png@ == png_signature());
    assert(jpeg@ == jpeg_signature());
    assert(riff@ == riff_tag());
    assert(webp@ == webp_tag());
    if bytes_at(bytes, 0, &png) {
        copy_str("png")
    } else if bytes_at(bytes, 0, &jpeg) {
        copy_str("jpg")
    } else if bytes_at(bytes, 0, &riff) && bytes_at(bytes, 8, &webp) {
        copy_str("webp")
    } else {
        copy_str(normalize_extension(fallback))
    }
}

/// The image of fetched bytes: empty bytes are refused.
pub fn image_payload(bytes: Vec<u8>, image_format: &str) -> (r: Result<ImagePayload, String>)
    ensures
        bytes@.len() == 0 ==> (r matches Err(e) && e@ == "图片内容为空"@),
        bytes@.len() > 0 ==> (r matches Ok(p) && p.bytes@ == bytes@ && p.extension@
            == detected_extension(bytes@, image_format@)),
{
    if bytes.len() == 0 {
        return Err(copy_str("图片内容为空"));
    }
    let extension = image_extension(bytes.as_slice(), image_format);
    Ok(ImagePayload { bytes, extension })
}

/// The image of downloaded bytes: an empty download is refused.
pub fn downloaded_image(bytes: Vec<u8>, image_format: &str) -> (r: Result<ImagePayload, String>)
    ensures
        bytes@.len() == 0 ==> (r matches Err(e) && e@ == "下载图片失败：响应内容为空"@),
        bytes@.len() > 0 ==> (r matches Ok(p) && p.bytes@ == bytes@ && p.extension@
            == detected_extension(bytes@, image_format@)),
{
    if bytes.len() == 0 {
        return Err(copy_str("下载图片失败：响应内容为空"));
    }
    image_payload(bytes, image_format)
}

/// What standard base64 decoding (`base64::engine::general_purpose::STANDARD`)
/// gives for a text: the bytes, or `None` when the text is not valid base64.
pub uninterp spec fn base64_decoded(text: Seq<char>) -> Option<Seq<u8>>;

/// What the `DecodeError` that standard base64 decoding reports for a
/// text that does not decode displays (its `Display` text).
pub uninterp spec fn base64_error_text(text: Seq<char>) -> Seq<char>;

/// `STANDARD.decode` of the `base64` crate: the result is the decoded bytes
/// exactly when the text decodes, else the displayed `DecodeError`.
#[verifier::external_body]
fn decode_base64(text: &str) -> (r: Result<Vec<u8>, String>)
    ensures
        r is Ok <==> base64_decoded(text@) is Some,
        r matches Ok(b) ==> base64_decoded(text@) == Some(b@),
        r matches Err(e) ==> e@ == base64_error_text(text@),
{
    match base64::engine::general_purpose::STANDARD.decode(text) {
        Ok(bytes) => Ok(bytes),
        Err(error) => Err(format!("{error}")),
    }
}

/// The image of a decoding outcome: a decoding error is reported with its
/// text, decoded bytes become an image as [`image_payload`] says.
pub fn image_from_decoded(decoded: Result<Vec<u8>, String>, image_format: &str) -> (r: Result<
    ImagePayload,
    String,
>)
    ensures
        decoded matches Err(e) ==> (r matches Err(m) && m@ == "图片数据解码失败："@ + e@),
        decoded matches Ok(b) ==> (b@.len() == 0 ==> (r matches Err(m) && m@ == "图片内容为空"@)),
        decoded matches Ok(b) ==> (b@.len() > 0 ==> (r matches Ok(p) && p.bytes@ == b@
            && p.extension@ == detected_extension(b@, image_format@))),
{
    match decoded {
        Err(e) => {
            let mut m = copy_str("图片数据解码失败：");
            append_str(&mut m, e.as_str());
            Err(m)
        },
        Ok(bytes) => image_payload(bytes, image_format),
    }
}

/// The image of base64 data in a response.
pub fn decode_image(encoded: &str, image_format: &str) -> (r: Result<ImagePayload, String>)
    ensures
        base64_decoded(encoded@) is None ==> (r matches Err(m) && m@ == "图片数据解码失败："@
            + base64_error_text(encoded@)),
        base64_decoded(encoded@) matches Some(b) ==> (b.len() == 0 ==> (r matches Err(m) && m@
            == "图片内容为空"@)),
        base64_decoded(encoded@) matches Some(b) ==> (b.len() > 0 ==> (r matches Ok(p) && p.bytes@
            == b && p.extension@ == detected_extension(b, image_format@))),
{
    let decoded = decode_base64(encoded);
    image_from_decoded(decoded, image_format)
}

/// How a batch of images was asked for: the provider's name and model and
/// the request's settings, the quantity clamped to 1..=10.
pub fn generation_metadata(
    provider: &Provider,
    prompt: &str,
    resolution: &str,
    image_format: &str,
    quantity: u32,
) -> (m: GenerationMetadata)
    ensures
        m.prompt@ == prompt@,
        m.provider@ == provider.name@,
        m.model@ == provider.model@,
        m.resolution@ == resolution@,
        m.image_format@ == image_format@,
        m.quantity == clamped_quantity(quantity),
{
    GenerationMetadata {
        prompt: copy_str(prompt),
        provider: copy_str(provider.name.as_str()),
        model: copy_str(provider.model.as_str()),
        resolution: copy_str(resolution),
        image_format: copy_str(image_format),
        quantity: clamp_quantity(quantity),
    }
}

/// What generating a batch hands on to storage: a failed request is passed
/// on as it is, and nothing is to be stored; otherwise every image that came
/// back is stored, in order, under the metadata of the request.
pub fn generation_outcome(
    requested: Result<Vec<ImagePayload>, String>,
    provider: &Provider,
    prompt: &str,
    resolution: &str,
    image_format: &str,
    quantity: u32,
) -> (r: Result<(Vec<ImagePayload>, GenerationMetadata), String>)
    ensures
        requested is Err <==> r is Err,
        requested matches Err(e) ==> r == Err::<(Vec<ImagePayload>, GenerationMetadata), String>(e),
        requested matches Ok(images) ==> (r matches Ok(out) && out.0 == images
            && out.1.prompt@ == prompt@ && out.1.provider@ == provider.name@
            && out.1.model@ == provider.model@ && out.1.resolution@ == resolution@
            && out.1.image_format@ == image_format@
            && out.1.quantity == clamped_quantity(quantity)),
{
    match requested {
        Err(e) => Err(e),
        Ok(images) => Ok((images, generation_metadata(provider, prompt, resolution, image_format, quantity))),
    }
}

/// The view of what a download gave: its bytes or its error.
pub open spec fn fetched_view(f: Result<Vec<u8>, String>) -> Result<Seq<u8>, Seq<char>> {
    match f {
        Ok(b) => Ok(b@),
        Err(e) => Err(e@),
    }
}

/// What one item of an image response gives, `fetched` being what its
/// download gave when it names a URL: the image's bytes and extension, or
/// the error that stops the batch.
pub open spec fn item_image(
    source: ImageSource,
    fetched: Result<Seq<u8>, Seq<char>>,
    image_format: Seq<char>,
) -> Result<(Seq<u8>, Seq<char>), Seq<char>> {
    match source {
        ImageSource::Encoded(e) => match base64_decoded(e@) {
            None => Err("图片数据解码失败："@ + base64_error_text(e@)),
            Some(b) => if b.len() == 0 {
                Err("图片内容为空"@)
            } else {
                Ok((b, detected_extension(b, image_format)))
            },
        },
        ImageSource::Download(_) => match fetched {
            Err(e) => Err(e),
            Ok(b) => if b.len() == 0 {
                Err("下载图片失败：响应内容为空"@)
            } else {
                Ok((b, detected_extension(b, image_format)))
            },
        },
        ImageSource::Missing => Err("图片响应缺少 b64_json 或 url"@),
    }
}

/// What the caller is to do after one item of an image response.
#[derive(Debug)]
pub enum ImagesStep {
    /// Download this URL, then call again with the images so far and what
    /// the download gave.
    Fetch { images: Vec<ImagePayload>, url: String },
    /// The item gave an image; go on with these images.
    Next(Vec<ImagePayload>),
    /// The batch is over with this outcome.
    Done(Result<Vec<ImagePayload>, String>),
}

/// Takes the next item of an image response, in order: `images` holds what
/// the items before it gave, and `fetched` what the item's download gave,
/// once it was asked for. Base64 data is decoded; a URL is downloaded; an
/// item with neither, or whose image is empty or cannot be read, stops the
/// batch with its error. Past the last item the batch is done with the
/// images, in the order of the items.
pub fn image_item_step(
    sources: &Vec<ImageSource>,
    image_format: &str,
    images: Vec<ImagePayload>,
    fetched: Option<Result<Vec<u8>, String>>,
) -> (r: ImagesStep)
    requires
        images@.len() <= sources@.len(),
    ensures
        images@.len() == sources@.len() ==> (r matches ImagesStep::Done(Ok(out)) && out@ == images@),
        images@.len() < sources@.len() ==> {
            let k = images@.len() as int;
            let source = sources@[k];
            if source is Download && fetched is None {
                r matches ImagesStep::Fetch { images: out, url } && out@ == images@
                    && (source matches ImageSource::Download(u) && u@ == url@)
            } else {
                match item_image(
                    source,
                    match fetched {
                        Some(f) => fetched_view(f),
                        None => Err(Seq::empty()),
                    },
                    image_format@,
                ) {
                    Err(e) => r matches ImagesStep::Done(Err(m)) && m@ == e,
                    Ok((b, ext)) => r matches ImagesStep::Next(out) && out@.len() == k + 1
                        && out@.subrange(0, k) == images@ && out@[k].bytes@ == b
                        && out@[k].extension@ == ext,
                }
            }
        },
{
    let k = images.len();
    if k == sources.len() {
        return ImagesStep::Done(Ok(images));
    }
    let item = match &sources[k] {
        ImageSource::Encoded(e) => decode_image(e.as_str(), image_format),
        ImageSource::Download(url) => match fetched {
            None => return ImagesStep::Fetch { images, url: copy_str(url.as_str()) },
            Some(Err(e)) => Err(e),
            Some(Ok(bytes)) => downloaded_image(bytes, image_format),
        },
        ImageSource::Missing => Err(missing_image_message()),
    };
    match item {
        Err(e) => ImagesStep::Done(Err(e)),
        Ok(p) => {
            let mut out = images;
            out.push(p);
            assert(out@.subrange(0, k as int) =~= images@);
            ImagesStep::Next(out)
        },
    }
}

} // verus!
