//! The data directory: API provider settings, the history of generated
//! images, the names of image files and the paths they live at.
//!
//! Reading and writing files is done by the caller; this module decides
//! what is read, what is written and what each operation answers.
use vstd::prelude::*;
use crate::text::{
    append_str, ascii_lower, chars_are, chars_of, contains_char, copy_str, ends_with_chars,
    first_match, has_prefix, has_suffix, lemma_first_match_at, lemma_first_match_none, lowered,
    blank, is_blank, push_char, same_text, starts_with_chars, string_from_range, string_of, trim, trim_bounds,
};

verus! {

/// The abstract value of a [`Provider`].
pub struct ProviderView {
    pub name: Seq<char>,
    pub base_url: Seq<char>,
    pub api_key: Seq<char>,
    pub model: Seq<char>,
    pub models: Seq<Seq<char>>,
}

/// An OpenAI-compatible image API the user has configured.
#[derive(Clone, Debug)]
pub struct Provider {
    pub name: String,
    pub base_url: String,
    pub api_key: String,
    pub model: String,
    pub models: Vec<String>,
}

/// The views of a list of strings.
pub open spec fn strings_view(v: Seq<String>) -> Seq<Seq<char>> {
    v.map_values(|s: String| s@)
}

impl View for Provider {
    type V = ProviderView;

    open spec fn view(&self) -> ProviderView {
        ProviderView {
            name: self.name@,
            base_url: self.base_url@,
            api_key: self.api_key@,
            model: self.model@,
            models: strings_view(self.models@),
        }
    }
}

/// A copy of a list of strings.
pub fn copy_strings(v: &Vec<String>) -> (out: Vec<String>)
    ensures
        strings_view(out@) == strings_view(v@),
{
    let mut out: Vec<String> = Vec::new();
    let mut i: usize = 0;
    while i < v.len()
        invariant
            i <= v.len(),
            out@.len() == i,
            forall|j: int| 0 <= j < i ==> out@[j]@ == v@[j]@,
        decreases v.len() - i,
    {
        out.push(copy_str(v[i].as_str()));
        i += 1;
    }
    assert(strings_view(out@) =~= strings_view(v@));
    out
}

impl Provider {
    /// A copy of this provider.
    pub fn duplicate(&self) -> (out: Provider)
        ensures
            out@ == self@,
    {
        Provider {
            name: copy_str(self.name.as_str()),
            base_url: copy_str(self.base_url.as_str()),
            api_key: copy_str(self.api_key.as_str()),
            model: copy_str(self.model.as_str()),
            models: copy_strings(&self.models),
        }
    }
}

/// The abstract value of a [`ProviderState`].
pub struct ProviderStateView {
    pub current_index: nat,
    pub providers: Seq<ProviderView>,
}

/// All configured providers and which of them is current.
#[derive(Clone, Debug)]
pub struct ProviderState {
    pub current_index: usize,
    pub providers: Vec<Provider>,
}

/// The views of a list of providers.
pub open spec fn providers_view(v: Seq<Provider>) -> Seq<ProviderView> {
    v.map_values(|p: Provider| p@)
}

impl View for ProviderState {
    type V = ProviderStateView;

    open spec fn view(&self) -> ProviderStateView {
        ProviderStateView {
            current_index: self.current_index as nat,
            providers: providers_view(self.providers@),
        }
    }
}

/// The name of the provider of a fresh installation.
pub open spec fn demo_provider_name() -> Seq<char> {
    "本地演示 API"@
}

/// The provider of a fresh installation: a name and nothing else.
pub open spec fn demo_provider() -> ProviderView {
    ProviderView {
        name: demo_provider_name(),
        base_url: Seq::empty(),
        api_key: Seq::empty(),
        model: Seq::empty(),
        models: Seq::empty(),
    }
}

/// The settings of a fresh installation.
pub open spec fn default_state_view() -> ProviderStateView {
    ProviderStateView { current_index: 0, providers: seq![demo_provider()] }
}

/// Settings that name at least one provider and whose current index points
/// at one of them.
pub open spec fn well_formed(s: ProviderStateView) -> bool {
    s.providers.len() >= 1 && s.current_index < s.providers.len()
}

/// What `normalize` makes of settings: the fresh settings when no provider
/// is left, else the current index clamped to the last provider.
pub open spec fn normalized(s: ProviderStateView) -> ProviderStateView {
    if s.providers.len() == 0 {
        default_state_view()
    } else if s.current_index < s.providers.len() {
        s
    } else {
        ProviderStateView { current_index: (s.providers.len() - 1) as nat, ..s }
    }
}

/// A provider with only a name.
pub fn named_provider(name: &str) -> (p: Provider)
    ensures
        p@ == (ProviderView {
            name: name@,
            base_url: Seq::empty(),
            api_key: Seq::empty(),
            model: Seq::empty(),
            models: Seq::empty(),
        }),
{
    let p = Provider {
        name: copy_str(name),
        base_url: String::new(),
        api_key: String::new(),
        model: String::new(),
        models: Vec::new(),
    };
    assert(strings_view(p.models@) =~= Seq::empty());
    p
}

impl ProviderState {
    /// The settings of a fresh installation: one demo provider, selected.
    pub fn default_state() -> (s: ProviderState)
        ensures
            s@ == default_state_view(),
    {
        let mut providers: Vec<Provider> = Vec::new();
        providers.push(named_provider("本地演示 API"));
        let s = ProviderState { current_index: 0, providers };
        assert(s@.providers =~= seq![demo_provider()]);
        s
    }

    /// Restores the fresh settings when no provider is left and clamps the
    /// current index to the last provider.
    pub fn normalize(&mut self)
        ensures
            final(self)@ == normalized(old(self)@),
            well_formed(final(self)@),
    {
        if self.providers.len() == 0 {
            *self = Self::default_state();
        } else if self.current_index >= self.providers.len() {
            self.current_index = self.providers.len() - 1;
        }
    }
}


/// The names of a list of providers.
pub open spec fn names_of(ps: Seq<ProviderView>) -> Seq<Seq<char>> {
    ps.map_values(|p: ProviderView| p.name)
}

/// The index of the first provider called `name`, if there is one.
pub open spec fn position_named(ps: Seq<ProviderView>, name: Seq<char>) -> Option<int> {
    first_match(names_of(ps), name)
}

/// The index of the first provider in `providers` called `name`.
pub fn find_provider(providers: &Vec<Provider>, name: &str) -> (r: Option<usize>)
    ensures
        r matches Some(i) ==> position_named(providers_view(providers@), name@) == Some(i as int),
        r is None ==> position_named(providers_view(providers@), name@) is None,
        r is None ==> forall|j: int|
            0 <= j < providers@.len() ==> providers@[j].name@ != name@,
{
    let ghost ps = providers_view(providers@);
    let mut i: usize = 0;
    while i < providers.len()
        invariant
            i <= providers.len(),
            ps == providers_view(providers@),
            forall|j: int| 0 <= j < i ==> providers@[j].name@ != name@,
        decreases providers.len() - i,
    {
        if same_text(providers[i].name.as_str(), name) {
            proof {
                let keys = names_of(ps);
                assert forall|j: int| 0 <= j < i implies keys[j] != name@ by {
                    assert(keys[j] == providers@[j].name@);
                }
                assert(keys[i as int] == name@);
                lemma_first_match_at(keys, name@, i as int);
            }
            return Some(i);
        }
        i += 1;
    }
    proof {
        let keys = names_of(ps);
        assert forall|j: int| 0 <= j < keys.len() implies keys[j] != name@ by {
            assert(keys[j] == providers@[j].name@);
        }
        lemma_first_match_none(keys, name@);
    }
    None
}


/// A generated image file name: `imggen-` first, no path separator, and a
/// `png`, `jpg` or `webp` extension. For such names `Path::file_name` is the
/// whole name and `Path::extension` the text after the last dot.
pub open spec fn valid_image_file_name(s: Seq<char>) -> bool {
    &&& has_prefix(s, "imggen-"@)
    &&& !s.contains('/')
    &&& !s.contains('\\')
    &&& (has_suffix(s, ".png"@) || has_suffix(s, ".jpg"@) || has_suffix(s, ".webp"@))
}

/// The answer when a history image file name is not a generated one.
pub open spec fn invalid_image_name_message() -> Seq<char> {
    "历史图片文件名无效"@
}

/// Accepts exactly the generated image file names.
pub fn validate_image_file_name(image_file: &str) -> (r: Result<(), String>)
    ensures
        r is Ok <==> valid_image_file_name(image_file@),
        r matches Err(e) ==> e@ == invalid_image_name_message(),
{
    let cs = chars_of(image_file);
    let prefix = chars_of("imggen-");
    let png = chars_of(".png");
    let jpg = chars_of(".jpg");
    let webp = chars_of(".webp");
    let valid = starts_with_chars(&cs, &prefix) && !contains_char(&cs, '/') && !contains_char(
        &cs,
        '\\',
    ) && (ends_with_chars(&cs, &png) || ends_with_chars(&cs, &jpg) || ends_with_chars(&cs, &webp));
    if valid {
        Ok(())
    } else {
        Err(copy_str("历史图片文件名无效"))
    }
}

/// A directory entry is an image this program generated.
pub fn is_generated_image_name(name: &str) -> (b: bool)
    ensures
        b == valid_image_file_name(name@),
{
    validate_image_file_name(name).is_ok()
}

/// The extension an image is stored under, from a user-given format or
/// extension: trimmed and compared without ASCII case, `jpg`/`jpeg` give
/// `jpg`, `webp` gives `webp`, anything else `png`.
pub open spec fn normalized_extension(e: Seq<char>) -> Seq<char> {
    let l = ascii_lower(trim(e));
    if l == "jpg"@ || l == "jpeg"@ {
        "jpg"@
    } else if l == "webp"@ {
        "webp"@
    } else {
        "png"@
    }
}

/// The extension an image is stored under (see [`normalized_extension`]).
pub fn normalize_extension(extension: &str) -> (r: &'static str)
    ensures
        r@ == normalized_extension(extension@),
{
    let cs = chars_of(extension);
    let (lo, hi) = trim_bounds(&cs);
    let t = string_from_range(&cs, lo, hi);
    let tc = chars_of(t.as_str());
    let l = lowered(&tc);
    if chars_are(&l, "jpg") || chars_are(&l, "jpeg") {
        "jpg"
    } else if chars_are(&l, "webp") {
        "webp"
    } else {
        "png"
    }
}

/// `c` separates path components where `sep` is the platform's main
/// separator (`/` everywhere, `\` as well on Windows).
pub open spec fn is_separator(c: char, sep: char) -> bool {
    c == '/' || c == sep
}

/// On Windows (`\` as main separator), `base` is a bare drive such as
/// `C:`, onto which `Path::join` puts no separator.
pub open spec fn is_bare_drive(base: Seq<char>, sep: char) -> bool {
    &&& sep == '\\'
    &&& base.len() == 2
    &&& base[1] == ':'
    &&& ('a' <= base[0] <= 'z' || 'A' <= base[0] <= 'Z')
}

/// `Path::join` of a relative `name` (a plain file name) onto `base`: a
/// separator is put between them unless `base` is empty, already ends with
/// one, or is a bare Windows drive.
pub open spec fn joined(base: Seq<char>, name: Seq<char>, sep: char) -> Seq<char> {
    if base.len() == 0 || is_separator(base.last(), sep) || is_bare_drive(base, sep) {
        base + name
    } else {
        base.push(sep) + name
    }
}

/// The platform's main path separator, `std::path::MAIN_SEPARATOR`: `/`,
/// or `\` on Windows. Nothing else is claimed of it.
#[verifier::external_body]
fn main_separator() -> (c: char)
    ensures
        c == '/' || c == '\\',
{
    std::path::MAIN_SEPARATOR
}

/// `base` joined with the relative `name` (see [`joined`]).
pub fn join_path(base: &str, name: &str, sep: char) -> (out: String)
    ensures
        out@ == joined(base@, name@, sep),
{
    let cs = chars_of(base);
    let mut out = string_of(&cs);
    let bare_drive = sep == '\\' && cs.len() == 2 && cs[1] == ':' && (('a' <= cs[0] && cs[0]
        <= 'z') || ('A' <= cs[0] && cs[0] <= 'Z'));
    if cs.len() > 0 && cs[cs.len() - 1] != '/' && cs[cs.len() - 1] != sep && !bare_drive {
        push_char(&mut out, sep);
    }
    assert(cs.len() > 0 ==> cs@.last() == cs@[cs.len() - 1]);
    append_str(&mut out, name);
    out
}

/// Where the application keeps its data, as text.
#[derive(Clone, Debug)]
pub struct AppPaths {
    pub root: String,
    pub data: String,
    pub history: String,
    pub providers: String,
    pub images: String,
    pub lock: String,
    /// The separator the paths were joined with.
    pub separator: char,
}

/// The data layout under the application root `root`.
pub open spec fn paths_under(p: AppPaths, root: Seq<char>) -> bool {
    let sep = p.separator;
    let data = joined(root, "data"@, sep);
    &&& sep == '/' || sep == '\\'
    &&& p.root@ == root
    &&& p.data@ == data
    &&& p.history@ == joined(data, "history.json"@, sep)
    &&& p.providers@ == joined(data, "providers.json"@, sep)
    &&& p.images@ == joined(data, "images"@, sep)
    &&& p.lock@ == joined(data, ".storage.lock"@, sep)
}

impl AppPaths {
    /// The `data` directory under `root` and the files in it.
    pub fn from_root(root: String) -> (p: AppPaths)
        ensures
            paths_under(p, root@),
    {
        let sep = main_separator();
        let data = join_path(root.as_str(), "data", sep);
        AppPaths {
            history: join_path(data.as_str(), "history.json", sep),
            providers: join_path(data.as_str(), "providers.json", sep),
            images: join_path(data.as_str(), "images", sep),
            lock: join_path(data.as_str(), ".storage.lock", sep),
            data,
            root,
            separator: sep,
        }
    }
}

/// The application's data directory.
#[derive(Clone, Debug)]
pub struct Storage {
    paths: AppPaths,
}

impl Storage {
    /// The layout of the data directory.
    pub closed spec fn layout(&self) -> AppPaths {
        self.paths
    }

    /// Storage under the application root `root`.
    pub fn from_root(root: String) -> (s: Storage)
        ensures
            paths_under(s.layout(), root@),
    {
        Storage { paths: AppPaths::from_root(root) }
    }

    /// The paths of the data directory.
    pub fn paths(&self) -> (p: &AppPaths)
        ensures
            *p == self.layout(),
    {
        &self.paths
    }

    /// The path of a history image: only generated names are accepted, so
    /// the path always lies directly in the images directory.
    pub fn image_path(&self, image_file: &str) -> (r: Result<String, String>)
        ensures
            r is Ok <==> valid_image_file_name(image_file@),
            r matches Ok(p) ==> p@ == joined(
                self.layout().images@,
                image_file@,
                self.layout().separator,
            ),
            r matches Err(e) ==> e@ == invalid_image_name_message(),
    {
        match validate_image_file_name(image_file) {
            Ok(()) => Ok(join_path(self.paths.images.as_str(), image_file, self.paths.separator)),
            Err(e) => Err(e),
        }
    }
}


/// The abstract value of a [`HistoryRecord`].
pub struct HistoryRecordView {
    pub id: Seq<char>,
    pub created_at: u64,
    pub prompt: Seq<char>,
    pub provider: Seq<char>,
    pub model: Seq<char>,
    pub resolution: Seq<char>,
    pub image_format: Seq<char>,
    pub quantity: u32,
    pub image_file: Seq<char>,
}

/// One generated image and how it was asked for.
#[derive(Clone, Debug)]
pub struct HistoryRecord {
    pub id: String,
    pub created_at: u64,
    pub prompt: String,
    pub provider: String,
    pub model: String,
    pub resolution: String,
    pub image_format: String,
    pub quantity: u32,
    pub image_file: String,
}

impl View for HistoryRecord {
    type V = HistoryRecordView;

    open spec fn view(&self) -> HistoryRecordView {
        HistoryRecordView {
            id: self.id@,
            created_at: self.created_at,
            prompt: self.prompt@,
            provider: self.provider@,
            model: self.model@,
            resolution: self.resolution@,
            image_format: self.image_format@,
            quantity: self.quantity,
            image_file: self.image_file@,
        }
    }
}

impl HistoryRecord {
    /// A copy of this record.
    pub fn duplicate(&self) -> (out: HistoryRecord)
        ensures
            out@ == self@,
    {
        HistoryRecord {
            id: copy_str(self.id.as_str()),
            created_at: self.created_at,
            prompt: copy_str(self.prompt.as_str()),
            provider: copy_str(self.provider.as_str()),
            model: copy_str(self.model.as_str()),
            resolution: copy_str(self.resolution.as_str()),
            image_format: copy_str(self.image_format.as_str()),
            quantity: self.quantity,
            image_file: copy_str(self.image_file.as_str()),
        }
    }
}

/// The views of a list of records.
pub open spec fn records_view(v: Seq<HistoryRecord>) -> Seq<HistoryRecordView> {
    v.map_values(|r: HistoryRecord| r@)
}

/// The ids of a list of records.
pub open spec fn ids_of(v: Seq<HistoryRecord>) -> Seq<Seq<char>> {
    v.map_values(|r: HistoryRecord| r.id@)
}

/// The image file names of a list of records.
pub open spec fn image_files_of(v: Seq<HistoryRecord>) -> Seq<Seq<char>> {
    v.map_values(|r: HistoryRecord| r.image_file@)
}

/// The bytes of a generated image and the extension it is stored under.
#[derive(Clone, Debug)]
pub struct ImagePayload {
    pub bytes: Vec<u8>,
    pub extension: String,
}

/// How a batch of images was asked for.
#[derive(Clone, Debug)]
pub struct GenerationMetadata {
    pub prompt: String,
    pub provider: String,
    pub model: String,
    pub resolution: String,
    pub image_format: String,
    pub quantity: u32,
}

/// The file an image with id `id` and extension `extension` is stored in.
pub open spec fn staged_file_name(id: Seq<char>, extension: Seq<char>) -> Seq<char> {
    "imggen-"@ + id + "."@ + normalized_extension(extension)
}

/// Two stored images get the same file name only when they have the same id:
/// the extensions an image is stored under end differently.
pub proof fn lemma_staged_file_name_injective(
    a: Seq<char>,
    ea: Seq<char>,
    b: Seq<char>,
    eb: Seq<char>,
)
    requires
        staged_file_name(a, ea) == staged_file_name(b, eb),
    ensures
        a == b,
{
    reveal_strlit("imggen-");
    reveal_strlit(".");
    reveal_strlit("png");
    reveal_strlit("jpg");
    reveal_strlit("webp");
    let na = normalized_extension(ea);
    let nb = normalized_extension(eb);
    let s = staged_file_name(a, ea);
    let t = staged_file_name(b, eb);
    assert(s == "imggen-"@ + a + "."@ + na);
    assert(t == "imggen-"@ + b + "."@ + nb);
    assert(s.len() == 8 + a.len() + na.len());
    assert(t.len() == 8 + b.len() + nb.len());
    assert(s[s.len() - 1] == na[na.len() - 1]);
    assert(t[t.len() - 1] == nb[nb.len() - 1]);
    assert(s[s.len() - 3] == na[na.len() - 3]);
    assert(t[t.len() - 3] == nb[nb.len() - 3]);
    assert(na == nb);
    assert(a =~= s.subrange(7, 7 + a.len() as int));
    assert(b =~= t.subrange(7, 7 + b.len() as int));
}

/// The history record of a stored image.
pub open spec fn staged_record(
    meta: GenerationMetadata,
    id: Seq<char>,
    created_at: u64,
    extension: Seq<char>,
) -> HistoryRecordView {
    HistoryRecordView {
        id,
        created_at,
        prompt: meta.prompt@,
        provider: meta.provider@,
        model: meta.model@,
        resolution: meta.resolution@,
        image_format: meta.image_format@,
        quantity: meta.quantity,
        image_file: staged_file_name(id, extension),
    }
}

/// The file an image with id `id` is stored in.
pub fn staged_image_file(id: &str, extension: &str) -> (name: String)
    ensures
        name@ == staged_file_name(id@, extension@),
{
    let mut name = copy_str("imggen-");
    append_str(&mut name, id);
    append_str(&mut name, ".");
    append_str(&mut name, normalize_extension(extension));
    name
}

/// `existing` with `records` put before it, in their order.
pub fn prepend_history(records: &Vec<HistoryRecord>, existing: Vec<HistoryRecord>) -> (all: Vec<
    HistoryRecord,
>)
    ensures
        records_view(all@) == records_view(records@) + records_view(existing@),
{
    let mut all: Vec<HistoryRecord> = Vec::new();
    let mut i: usize = 0;
    while i < records.len()
        invariant
            i <= records.len(),
            records_view(all@) == records_view(records@.take(i as int)),
        decreases records.len() - i,
    {
        all.push(records[i].duplicate());
        assert(records@.take(i + 1) == records@.take(i as int).push(records@[i as int]));
        assert(records_view(records@.take(i + 1)) =~= records_view(records@.take(i as int)).push(
            records@[i as int]@,
        ));
        assert(records_view(all@) =~= records_view(records@.take(i as int)).push(records@[i as int]@));
        i += 1;
    }
    assert(records@.take(records.len() as int) == records@);
    let ghost front = all@;
    let mut rest = existing;
    all.append(&mut rest);
    assert(records_view(all@) =~= records_view(front) + records_view(existing@));
    all
}

impl Storage {
    /// Names and records a batch of generated images. `ids[i]` and
    /// `created_at[i]` are the id and time of image `i`. An empty batch is
    /// refused; otherwise there is one record per image, in order, whose
    /// `image_file` is where its bytes go, and images with different ids
    /// never share a file. Whether each image can be written is decided
    /// image by image as the batch is written (see [`store_step`]).
    pub fn store_images(
        &self,
        images: &[ImagePayload],
        metadata: &GenerationMetadata,
        ids: &[String],
        created_at: &[u64],
    ) -> (r: Result<Vec<HistoryRecord>, String>)
        requires
            ids@.len() == images@.len(),
            created_at@.len() == images@.len(),
        ensures
            images@.len() == 0 <==> r is Err,
            r matches Err(e) ==> e@ == "没有可保存的图片"@,
            r matches Ok(rs) ==> rs@.len() == images@.len() && forall|i: int|
                0 <= i < images@.len() ==> (#[trigger] rs@[i])@ == staged_record(
                    *metadata,
                    ids@[i]@,
                    created_at@[i],
                    images@[i].extension@,
                ),
            r matches Ok(rs) ==> forall|i: int, j: int|
                0 <= i < images@.len() && 0 <= j < images@.len() && ids@[i]@ != ids@[j]@
                    ==> (#[trigger] rs@[i]).image_file@ != (#[trigger] rs@[j]).image_file@,
    {
        if images.len() == 0 {
            return Err(copy_str("没有可保存的图片"));
        }
        let mut records: Vec<HistoryRecord> = Vec::new();
        let mut i: usize = 0;
        while i < images.len()
            invariant
                i <= images@.len(),
                ids@.len() == images@.len(),
                created_at@.len() == images@.len(),
                records@.len() == i,
                forall|j: int|
                    0 <= j < i ==> (#[trigger] records@[j])@ == staged_record(
                        *metadata,
                        ids@[j]@,
                        created_at@[j],
                        images@[j].extension@,
                    ),
            decreases images@.len() - i,
        {
            let image_file = staged_image_file(ids[i].as_str(), images[i].extension.as_str());
            records.push(
                HistoryRecord {
                    id: copy_str(ids[i].as_str()),
                    created_at: created_at[i],
                    prompt: copy_str(metadata.prompt.as_str()),
                    provider: copy_str(metadata.provider.as_str()),
                    model: copy_str(metadata.model.as_str()),
                    resolution: copy_str(metadata.resolution.as_str()),
                    image_format: copy_str(metadata.image_format.as_str()),
                    quantity: metadata.quantity,
                    image_file,
                },
            );
            i += 1;
        }
        assert forall|i: int, j: int|
            0 <= i < images@.len() && 0 <= j < images@.len() && ids@[i]@ != ids@[j]@
                implies (#[trigger] records@[i]).image_file@ != (#[trigger] records@[j]).image_file@ by {
            if records@[i].image_file@ == records@[j].image_file@ {
                lemma_staged_file_name_injective(
                    ids@[i]@,
                    images@[i].extension@,
                    ids@[j]@,
                    images@[j].extension@,
                );
            }
        }
        Ok(records)
    }
}

/// What deleting one history record takes: the record, where it stood, the
/// history without it and the path of its image.
#[derive(Clone, Debug)]
pub struct HistoryDeletion {
    pub index: usize,
    pub record: HistoryRecord,
    pub remaining: Vec<HistoryRecord>,
    pub image_path: String,
}

/// The answer of a restore step: `成功` when it raised no error.
pub fn restore_result<T>(error: &Option<T>) -> (r: &'static str)
    ensures
        r@ == if error is None {
            "成功"@
        } else {
            "失败"@
        },
{
    if error.is_none() {
        "成功"
    } else {
        "失败"
    }
}

/// The tail of the error after an image could not be removed, saying what
/// was put back.
pub open spec fn restore_detail(history_error: bool, image_error: bool) -> Seq<char> {
    if !history_error && !image_error {
        "，已恢复历史记录和图片"@
    } else {
        "，恢复结果：历史记录="@ + (if history_error {
            "失败"@
        } else {
            "成功"@
        }) + "，图片="@ + (if image_error {
            "失败"@
        } else {
            "成功"@
        })
    }
}

/// The error when a deleted record's image could not be removed; the
/// record and the image were then put back, with the given outcomes.
pub fn delete_failure_message(
    error: &str,
    history_restore: &Option<String>,
    image_restore: &Option<String>,
) -> (msg: String)
    ensures
        msg@ == "删除历史图片失败："@ + error@ + restore_detail(
            history_restore is Some,
            image_restore is Some,
        ),
{
    let mut msg = copy_str("删除历史图片失败：");
    append_str(&mut msg, error);
    if history_restore.is_none() && image_restore.is_none() {
        append_str(&mut msg, "，已恢复历史记录和图片");
    } else {
        append_str(&mut msg, "，恢复结果：历史记录=");
        append_str(&mut msg, restore_result(history_restore));
        append_str(&mut msg, "，图片=");
        append_str(&mut msg, restore_result(image_restore));
    }
    msg
}

/// The records a reload keeps: those whose image is a generated file name
/// that is still a regular file (`present`).
pub open spec fn kept_records(rs: Seq<HistoryRecord>, present: Seq<bool>) -> Seq<HistoryRecord>
    decreases rs.len(),
{
    if rs.len() == 0 || present.len() == 0 {
        Seq::empty()
    } else {
        let rest = kept_records(rs.drop_last(), present.drop_last());
        if present.last() && valid_image_file_name(rs.last().image_file@) {
            rest.push(rs.last())
        } else {
            rest
        }
    }
}

/// The directory entries a reload removes: generated image names that no
/// record refers to.
pub open spec fn stale_names(entries: Seq<Seq<char>>, files: Seq<Seq<char>>) -> Seq<Seq<char>>
    decreases entries.len(),
{
    if entries.len() == 0 {
        Seq::empty()
    } else {
        let rest = stale_names(entries.drop_last(), files);
        let e = entries.last();
        if valid_image_file_name(e) && !files.contains(e) {
            rest.push(e)
        } else {
            rest
        }
    }
}

/// The settings read from disk: fresh ones when there is no file, else the
/// stored ones normalized.
pub open spec fn loaded_state(stored: Option<ProviderStateView>) -> ProviderStateView {
    match stored {
        Some(s) => normalized(s),
        None => default_state_view(),
    }
}

/// The view of optional settings.
pub open spec fn optional_state_view(stored: Option<ProviderState>) -> Option<ProviderStateView> {
    match stored {
        Some(s) => Some(s@),
        None => None,
    }
}

impl Storage {
    /// A history id to delete must not be blank.
    pub fn check_history_id(id: &str) -> (r: Result<(), String>)
        ensures
            r is Ok <==> !is_blank(id@),
            r matches Err(e) ==> e@ == "历史记录 ID 不能为空"@,
    {
        if blank(id) {
            Err(copy_str("历史记录 ID 不能为空"))
        } else {
            Ok(())
        }
    }

    /// Deletes the record with id `id` from the history `records` as read
    /// from disk. A blank id is refused before anything else; a read error
    /// is passed on; an unknown id deletes nothing; a record whose image file
    /// name is not a generated one is refused.
    pub fn delete_history(&self, records: Result<Vec<HistoryRecord>, String>, id: &str) -> (r: Result<
        Option<HistoryDeletion>,
        String,
    >)
        ensures
            is_blank(id@) ==> (r matches Err(e) && e@ == "历史记录 ID 不能为空"@),
            !is_blank(id@) ==> match records {
                Err(read_error) => r == Err::<Option<HistoryDeletion>, String>(read_error),
                Ok(rs) => match first_match(ids_of(rs@), id@) {
                    None => r matches Ok(None),
                    Some(i) => if valid_image_file_name(rs@[i].image_file@) {
                        r matches Ok(Some(d)) && d.index == i && d.record@ == rs@[i]@
                            && records_view(d.remaining@) == records_view(rs@.remove(i))
                            && d.image_path@ == joined(
                            self.layout().images@,
                            rs@[i].image_file@,
                            self.layout().separator,
                        )
                    } else {
                        r matches Err(e) && e@ == invalid_image_name_message()
                    },
                },
            },
    {
        if let Err(e) = Self::check_history_id(id) {
            return Err(e);
        }
        let mut rs = match records {
            Err(e) => return Err(e),
            Ok(rs) => rs,
        };
        let ghost old_rs = rs@;
        let index = match find_record(&rs, id) {
            None => return Ok(None),
            Some(index) => index,
        };
        let record = rs.remove(index);
        assert(records_view(rs@) =~= records_view(old_rs.remove(index as int)));
        match self.image_path(record.image_file.as_str()) {
            Err(e) => Err(e),
            Ok(image_path) => Ok(Some(HistoryDeletion { index, record, remaining: rs, image_path })),
        }
    }
}

/// The index of the first record with id `id`.
pub fn find_record(records: &Vec<HistoryRecord>, id: &str) -> (r: Option<usize>)
    ensures
        r matches Some(i) ==> first_match(ids_of(records@), id@) == Some(i as int),
        r is None ==> first_match(ids_of(records@), id@) is None,
{
    let ghost keys = ids_of(records@);
    let mut i: usize = 0;
    while i < records.len()
        invariant
            i <= records.len(),
            keys == ids_of(records@),
            forall|j: int| 0 <= j < i ==> keys[j] != id@,
        decreases records.len() - i,
    {
        if same_text(records[i].id.as_str(), id) {
            proof {
                assert(keys[i as int] == records@[i as int].id@);
                lemma_first_match_at(keys, id@, i as int);
            }
            return Some(i);
        }
        assert(keys[i as int] == records@[i as int].id@);
        i += 1;
    }
    proof {
        lemma_first_match_none(keys, id@);
    }
    None
}

impl Storage {
    /// The records a reload keeps, in order: `present[i]` says whether the
    /// image of record `i` is a regular file. The flag is whether any record
    /// was dropped, so that the history must be written back.
    pub fn reconcile_history(&self, records: &Vec<HistoryRecord>, present: &Vec<bool>) -> (r: (
        Vec<HistoryRecord>,
        bool,
    ))
        requires
            present@.len() == records@.len(),
        ensures
            records_view(r.0@) == records_view(kept_records(records@, present@)),
            r.1 == (r.0@.len() != records@.len()),
    {
        let mut kept: Vec<HistoryRecord> = Vec::new();
        let mut i: usize = 0;
        while i < records.len()
            invariant
                i <= records.len() == present.len(),
                records_view(kept@) == records_view(
                    kept_records(records@.take(i as int), present@.take(i as int)),
                ),
            decreases records.len() - i,
        {
            let ghost before = kept@;
            let keep = present[i] && is_generated_image_name(records[i].image_file.as_str());
            if keep {
                let d = records[i].duplicate();
                kept.push(d);
                assert(kept@ == before.push(d));
                assert(records_view(kept@) =~= records_view(before).push(d@));
            }
            proof {
                let rs = records@.take(i + 1);
                let ps = present@.take(i + 1);
                assert(rs.drop_last() == records@.take(i as int));
                assert(ps.drop_last() == present@.take(i as int));
                assert(rs.last() == records@[i as int]);
                assert(ps.last() == present@[i as int]);
                let k = kept_records(records@.take(i as int), present@.take(i as int));
                if keep {
                    assert(records_view(k.push(records@[i as int])) =~= records_view(k).push(
                        records@[i as int]@,
                    ));
                } else {
                    assert(kept@ == before);
                }
            }
            i += 1;
        }
        assert(records@.take(records.len() as int) == records@);
        assert(present@.take(present.len() as int) == present@);
        proof {
            lemma_kept_records_len(records@, present@);
        }
        let changed = kept.len() != records.len();
        (kept, changed)
    }

    /// The directory entries a reload removes: generated image names that
    /// none of `records` refers to, in the order of `entries`.
    pub fn stale_image_names(&self, records: &Vec<HistoryRecord>, entries: &Vec<String>) -> (r: Vec<
        String,
    >)
        ensures
            strings_view(r@) == stale_names(strings_view(entries@), image_files_of(records@)),
    {
        let ghost files = image_files_of(records@);
        let mut out: Vec<String> = Vec::new();
        let mut i: usize = 0;
        while i < entries.len()
            invariant
                i <= entries.len(),
                files == image_files_of(records@),
                strings_view(out@) == stale_names(strings_view(entries@.take(i as int)), files),
            decreases entries.len() - i,
        {
            let name = entries[i].as_str();
            let referenced = find_image_file(records, name);
            if is_generated_image_name(name) && !referenced {
                out.push(copy_str(name));
            }
            proof {
                let es = strings_view(entries@.take(i + 1));
                assert(es.drop_last() =~= strings_view(entries@.take(i as int)));
                assert(es.last() == entries@[i as int]@);
                assert(strings_view(out@) =~= stale_names(es, files));
            }
            i += 1;
        }
        assert(entries@.take(entries.len() as int) == entries@);
        out
    }

    /// The settings as read: fresh ones when no file was stored, else the
    /// stored ones normalized.
    pub fn load_provider_state(&self, stored: Option<ProviderState>) -> (s: ProviderState)
        ensures
            s@ == loaded_state(optional_state_view(stored)),
            well_formed(s@),
    {
        match stored {
            None => ProviderState::default_state(),
            Some(mut s) => {
                s.normalize();
                s
            },
        }
    }

    /// The settings as they are written: normalized.
    pub fn save_provider_state(&self, state: ProviderState) -> (s: ProviderState)
        ensures
            s@ == normalized(state@),
            well_formed(s@),
    {
        let mut s = state;
        s.normalize();
        s
    }

    /// Applies `update` to the settings as read (see
    /// [`Self::load_provider_state`]); on success answers its value and the
    /// settings to write, normalized. An error of `update` is passed on and
    /// nothing is to be written.
    pub fn update_provider_state<T, F: FnOnce(ProviderState) -> (ProviderState, Result<T, String>)>(
        &self,
        stored: Option<ProviderState>,
        update: F,
    ) -> (r: Result<(T, ProviderState), String>)
        requires
            forall|s: ProviderState| call_requires(update, (s,)),
        ensures
            exists|input: ProviderState, output: (ProviderState, Result<T, String>)|
                {
                    &&& input@ == loaded_state(optional_state_view(stored))
                    &&& call_ensures(update, (input,), output)
                    &&& match output.1 {
                        Ok(v) => r matches Ok(p) && p.0 == v && p.1@ == normalized(output.0@),
                        Err(e) => r == Err::<(T, ProviderState), String>(e),
                    }
                },
    {
        let input = self.load_provider_state(stored);
        let (state, value) = update(input);
        match value {
            Ok(v) => {
                let saved = self.save_provider_state(state);
                Ok((v, saved))
            },
            Err(e) => Err(e),
        }
    }

    /// Where an image being deleted is moved first: a hidden name next to
    /// it, made unique by `unique`.
    pub fn tombstone_path(&self, image_file: &str, unique: &str) -> (p: String)
        ensures
            p@ == joined(
                self.layout().images@,
                "."@ + image_file@ + ".deleting-"@ + unique@,
                self.layout().separator,
            ),
    {
        let mut name = copy_str(".");
        append_str(&mut name, image_file);
        append_str(&mut name, ".deleting-");
        append_str(&mut name, unique);
        join_path(self.paths.images.as_str(), name.as_str(), self.paths.separator)
    }

    /// Where an image is written before it is moved into place: a hidden
    /// name next to it, made unique by the image id.
    pub fn temporary_image_path(&self, image_file: &str, id: &str) -> (p: String)
        ensures
            p@ == joined(
                self.layout().images@,
                "."@ + image_file@ + ".tmp-"@ + id@,
                self.layout().separator,
            ),
    {
        let mut name = copy_str(".");
        append_str(&mut name, image_file);
        append_str(&mut name, ".tmp-");
        append_str(&mut name, id);
        join_path(self.paths.images.as_str(), name.as_str(), self.paths.separator)
    }
}

/// Some record of `records` has image file `name`.
pub fn find_image_file(records: &Vec<HistoryRecord>, name: &str) -> (b: bool)
    ensures
        b == image_files_of(records@).contains(name@),
{
    let ghost files = image_files_of(records@);
    let mut i: usize = 0;
    while i < records.len()
        invariant
            i <= records.len(),
            files == image_files_of(records@),
            forall|j: int| 0 <= j < i ==> files[j] != name@,
        decreases records.len() - i,
    {
        assert(files[i as int] == records@[i as int].image_file@);
        if same_text(records[i].image_file.as_str(), name) {
            return true;
        }
        i += 1;
    }
    false
}

/// A reload keeps at most the records it is given.
proof fn lemma_kept_records_len(rs: Seq<HistoryRecord>, present: Seq<bool>)
    ensures
        kept_records(rs, present).len() <= rs.len(),
    decreases rs.len(),
{
    if rs.len() > 0 && present.len() > 0 {
        lemma_kept_records_len(rs.drop_last(), present.drop_last());
    }
}

/// A copy of a list of records.
pub fn copy_records(v: &Vec<HistoryRecord>) -> (out: Vec<HistoryRecord>)
    ensures
        out@.len() == v@.len(),
        records_view(out@) == records_view(v@),
{
    let mut out: Vec<HistoryRecord> = Vec::new();
    let mut i: usize = 0;
    while i < v.len()
        invariant
            i <= v.len(),
            out@.len() == i,
            forall|j: int| 0 <= j < i ==> (#[trigger] out@[j])@ == v@[j]@,
        decreases v.len() - i,
    {
        out.push(v[i].duplicate());
        i += 1;
    }
    assert(records_view(out@) =~= records_view(v@));
    out
}

/// Where storing a batch of images stands.
#[derive(Clone, Debug)]
pub enum StorePhase {
    /// Image `i` is being written; images before it are written.
    WritingImage(usize),
    /// The history is being read.
    ReadingHistory,
    /// The history with the new records is being written.
    WritingHistory,
    /// Nothing more is to be done.
    Finished,
}

/// What the caller reports after doing a store action.
#[derive(Clone, Debug)]
pub enum StoreEvent {
    /// The write succeeded.
    Succeeded,
    /// The action failed with this error.
    Failed(String),
    /// The history was read.
    HistoryRead(Vec<HistoryRecord>),
}

/// What the caller is to do next while storing a batch.
#[derive(Clone, Debug)]
pub enum StoreAction {
    /// Write the bytes of image `i` to the file of record `i`.
    WriteImage(usize),
    /// Read the history.
    ReadHistory,
    /// Write this history.
    WriteHistory(Vec<HistoryRecord>),
    /// Remove the files of images `0..count`, then fail with `error`.
    RemoveImages { count: usize, error: String },
    /// Fail with this error, removing nothing.
    Fail(String),
    /// The batch is stored; answer its records.
    Finish,
}

/// The event that a store phase waits for.
pub open spec fn store_event_fits(phase: StorePhase, event: StoreEvent) -> bool {
    match phase {
        StorePhase::WritingImage(_) | StorePhase::WritingHistory => event is Succeeded || event is Failed,
        StorePhase::ReadingHistory => event is HistoryRead || event is Failed,
        StorePhase::Finished => false,
    }
}

/// `r` is how writing image `i` of a batch begins: an image without content
/// fails the batch, removing the images written before it; an image whose
/// file name is not a generated one fails it as it stands; any other image
/// is written.
pub open spec fn store_begins_image(
    records: Seq<HistoryRecord>,
    images: Seq<ImagePayload>,
    i: int,
    r: (StorePhase, StoreAction),
) -> bool {
    if images[i].bytes@.len() == 0 {
        &&& r.0 == StorePhase::Finished
        &&& r.1 matches StoreAction::RemoveImages { count, error }
        &&& count == i
        &&& error@ == "图片内容为空，无法保存"@
    } else if !valid_image_file_name(records[i].image_file@) {
        &&& r.0 == StorePhase::Finished
        &&& r.1 matches StoreAction::Fail(e)
        &&& e@ == invalid_image_name_message()
    } else {
        &&& r.0 == StorePhase::WritingImage(i as usize)
        &&& r.1 == StoreAction::WriteImage(i as usize)
    }
}

/// Begins writing image `i` of a batch (see [`store_begins_image`]).
fn begin_image(records: &Vec<HistoryRecord>, images: &[ImagePayload], i: usize) -> (r: (
    StorePhase,
    StoreAction,
))
    requires
        i < records@.len(),
        records@.len() == images@.len(),
    ensures
        store_begins_image(records@, images@, i as int, r),
{
    if images[i].bytes.len() == 0 {
        (
            StorePhase::Finished,
            StoreAction::RemoveImages { count: i, error: copy_str("图片内容为空，无法保存") },
        )
    } else {
        match validate_image_file_name(records[i].image_file.as_str()) {
            Err(e) => (StorePhase::Finished, StoreAction::Fail(e)),
            Ok(()) => (StorePhase::WritingImage(i), StoreAction::WriteImage(i)),
        }
    }
}

/// The first step of storing the `records` of a batch of `images`: image 0
/// is checked and written.
pub fn store_start(records: &Vec<HistoryRecord>, images: &[ImagePayload]) -> (r: (
    StorePhase,
    StoreAction,
))
    requires
        records@.len() > 0,
        records@.len() == images@.len(),
    ensures
        store_begins_image(records@, images@, 0, r),
{
    begin_image(records, images, 0)
}

/// `r` is the step that follows `event` in `phase` while storing the
/// `records` of a batch of `images`.
pub open spec fn store_transition(
    records: Seq<HistoryRecord>,
    images: Seq<ImagePayload>,
    phase: StorePhase,
    event: StoreEvent,
    r: (StorePhase, StoreAction),
) -> bool {
    match (phase, event) {
        (StorePhase::WritingImage(i), StoreEvent::Succeeded) => if i + 1 < records.len() {
            store_begins_image(records, images, i + 1, r)
        } else {
            &&& r.0 == StorePhase::ReadingHistory
            &&& r.1 == StoreAction::ReadHistory
        },
        (StorePhase::WritingImage(i), StoreEvent::Failed(e)) => {
            &&& r.0 == StorePhase::Finished
            &&& r.1 matches StoreAction::RemoveImages { count, error }
            &&& count == i
            &&& error@ == e@
        },
        (StorePhase::ReadingHistory, StoreEvent::HistoryRead(old)) => {
            &&& r.0 == StorePhase::WritingHistory
            &&& r.1 matches StoreAction::WriteHistory(all)
            &&& records_view(all@) == records_view(records) + records_view(old@)
        },
        (StorePhase::ReadingHistory, StoreEvent::Failed(e)) => {
            &&& r.0 == StorePhase::Finished
            &&& r.1 matches StoreAction::RemoveImages { count, error }
            &&& count == records.len()
            &&& error@ == e@
        },
        (StorePhase::WritingHistory, StoreEvent::Succeeded) => {
            &&& r.0 == StorePhase::Finished
            &&& r.1 == StoreAction::Finish
        },
        (StorePhase::WritingHistory, StoreEvent::Failed(e)) => {
            &&& r.0 == StorePhase::Finished
            &&& r.1 matches StoreAction::RemoveImages { count, error }
            &&& count == records.len()
            &&& error@ == e@
        },
        _ => false,
    }
}

/// The next step of storing the `records` of a batch of `images`: each
/// image is checked and written in order, then the history is read and
/// written back with the records before the old ones. A failed write, read
/// or check removes the images written so far and fails with its error,
/// but for a file name that is not a generated one, which fails the batch
/// as it stands.
pub fn store_step(
    records: &Vec<HistoryRecord>,
    images: &[ImagePayload],
    phase: StorePhase,
    event: StoreEvent,
) -> (r: (StorePhase, StoreAction))
    requires
        store_event_fits(phase, event),
        records@.len() == images@.len(),
        phase matches StorePhase::WritingImage(i) ==> i < records@.len(),
    ensures
        store_transition(records@, images@, phase, event, r),
{
    match (phase, event) {
        (StorePhase::WritingImage(i), StoreEvent::Succeeded) => {
            if i < records.len() - 1 {
                begin_image(records, images, i + 1)
            } else {
                (StorePhase::ReadingHistory, StoreAction::ReadHistory)
            }
        },
        (StorePhase::WritingImage(i), StoreEvent::Failed(e)) => (
            StorePhase::Finished,
            StoreAction::RemoveImages { count: i, error: e },
        ),
        (StorePhase::ReadingHistory, StoreEvent::HistoryRead(old)) => (
            StorePhase::WritingHistory,
            StoreAction::WriteHistory(prepend_history(records, old)),
        ),
        (StorePhase::ReadingHistory, StoreEvent::Failed(e)) => (
            StorePhase::Finished,
            StoreAction::RemoveImages { count: records.len(), error: e },
        ),
        (StorePhase::WritingHistory, StoreEvent::Succeeded) => (StorePhase::Finished, StoreAction::Finish),
        (_, StoreEvent::Failed(e)) => (
            StorePhase::Finished,
            StoreAction::RemoveImages { count: records.len(), error: e },
        ),
        (_, _) => (StorePhase::Finished, StoreAction::Finish),
    }
}

/// `t` is a run of store steps for the `records` of a batch of `images`:
/// each entry is a phase, the action done in it and the event that action
/// was answered with. The run starts at [`store_start`], and each next
/// phase and action follow from the one before by [`store_step`].
#[verifier::opaque]
pub open spec fn is_store_run(
    records: Seq<HistoryRecord>,
    images: Seq<ImagePayload>,
    t: Seq<(StorePhase, StoreAction, StoreEvent)>,
) -> bool {
    &&& t.len() > 0
    &&& store_begins_image(records, images, 0, (t[0].0, t[0].1))
    &&& forall|k: int|
        0 <= k < t.len() - 1 ==> store_event_fits(#[trigger] t[k].0, t[k].2) && store_transition(
            records,
            images,
            t[k].0,
            t[k].2,
            (t[k + 1].0, t[k + 1].1),
        )
}

/// Where deleting a record's image stands.
#[derive(Clone, Debug)]
pub enum DeletePhase {
    /// The image is being looked at.
    Inspecting,
    /// The image is being moved to its tombstone.
    Stashing,
    /// The history without the record is being written; `moved` says
    /// whether the image was stashed.
    WritingHistory { moved: bool },
    /// The image is being moved back because the history could not be
    /// written with this error.
    Returning { error: String },
    /// The tombstone is being removed.
    RemovingTombstone,
    /// History and image are being put back because the tombstone could not
    /// be removed with this error.
    Restoring { error: String },
    /// Nothing more is to be done.
    Finished,
}

/// What the caller reports after doing a delete action.
#[derive(Clone, Debug)]
pub enum DeleteEvent {
    /// There is no image file.
    ImageAbsent,
    /// The image path is something other than a regular file.
    ImageNotRegular,
    /// The image is a regular file.
    ImageRegular,
    /// The action succeeded.
    Succeeded,
    /// The action failed with this error.
    Failed(String),
    /// History and image were put back, each with its error if any.
    Restored { history_error: Option<String>, image_error: Option<String> },
}

/// What the caller is to do next while deleting a record.
#[derive(Debug)]
pub enum DeleteAction {
    /// Move the image to the tombstone.
    StashImage,
    /// Write this history.
    WriteHistory(Vec<HistoryRecord>),
    /// Remove the tombstone.
    RemoveTombstone,
    /// Move the tombstone back to the image, whatever comes of it.
    ReturnImage,
    /// Write this history and move the tombstone back to the image, and
    /// report both outcomes.
    RestoreBoth(Vec<HistoryRecord>),
    /// The deletion is over with this outcome.
    Finish(Result<(), String>),
}

/// The event that a delete phase waits for.
pub open spec fn delete_event_fits(phase: DeletePhase, event: DeleteEvent) -> bool {
    match phase {
        DeletePhase::Inspecting => event is ImageAbsent || event is ImageNotRegular || event is ImageRegular,
        DeletePhase::Restoring { .. } => event is Restored,
        DeletePhase::Finished => false,
        _ => event is Succeeded || event is Failed,
    }
}

/// The history with the deleted record put back where it stood.
pub open spec fn restored_history(d: HistoryDeletion) -> Seq<HistoryRecordView> {
    records_view(d.remaining@).insert(d.index as int, d.record@)
}

/// The next step of deleting a record's image, starting from `Inspecting`:
/// a path that is not a regular file is refused; a regular file is moved to
/// its tombstone before the history is written, and removed only after;
/// when the history cannot be written the image is moved back, and when the
/// tombstone cannot be removed both history and image are put back.
pub fn delete_step(deletion: &HistoryDeletion, phase: DeletePhase, event: DeleteEvent) -> (r: (
    DeletePhase,
    DeleteAction,
))
    requires
        delete_event_fits(phase, event),
        deletion.index <= deletion.remaining@.len(),
    ensures
        match (phase, event) {
            (DeletePhase::Inspecting, DeleteEvent::ImageAbsent) => {
                &&& r.0 == DeletePhase::WritingHistory { moved: false }
                &&& r.1 matches DeleteAction::WriteHistory(v)
                &&& records_view(v@) == records_view(deletion.remaining@)
            },
            (DeletePhase::Inspecting, DeleteEvent::ImageNotRegular) => {
                &&& r.0 == DeletePhase::Finished
                &&& r.1 matches DeleteAction::Finish(Err(e))
                &&& e@ == "历史图片不是普通文件，拒绝删除"@
            },
            (DeletePhase::Inspecting, DeleteEvent::ImageRegular) => {
                &&& r.0 == DeletePhase::Stashing
                &&& r.1 == DeleteAction::StashImage
            },
            (DeletePhase::Stashing, DeleteEvent::Succeeded) => {
                &&& r.0 == DeletePhase::WritingHistory { moved: true }
                &&& r.1 matches DeleteAction::WriteHistory(v)
                &&& records_view(v@) == records_view(deletion.remaining@)
            },
            (DeletePhase::Stashing, DeleteEvent::Failed(e)) => {
                &&& r.0 == DeletePhase::Finished
                &&& r.1 matches DeleteAction::Finish(Err(m))
                &&& m@ == "暂存历史图片失败："@ + e@
            },
            (DeletePhase::WritingHistory { moved }, DeleteEvent::Succeeded) => if moved {
                &&& r.0 == DeletePhase::RemovingTombstone
                &&& r.1 == DeleteAction::RemoveTombstone
            } else {
                &&& r.0 == DeletePhase::Finished
                &&& r.1 matches DeleteAction::Finish(Ok(()))
            },
            (DeletePhase::WritingHistory { moved }, DeleteEvent::Failed(e)) => if moved {
                &&& r.0 matches DeletePhase::Returning { error }
                &&& error@ == e@
                &&& r.1 == DeleteAction::ReturnImage
            } else {
                &&& r.0 == DeletePhase::Finished
                &&& r.1 matches DeleteAction::Finish(Err(m))
                &&& m@ == e@
            },
            (DeletePhase::Returning { error }, _) => {
                &&& r.0 == DeletePhase::Finished
                &&& r.1 matches DeleteAction::Finish(Err(m))
                &&& m@ == error@
            },
            (DeletePhase::RemovingTombstone, DeleteEvent::Succeeded) => {
                &&& r.0 == DeletePhase::Finished
                &&& r.1 matches DeleteAction::Finish(Ok(()))
            },
            (DeletePhase::RemovingTombstone, DeleteEvent::Failed(e)) => {
                &&& r.0 matches DeletePhase::Restoring { error }
                &&& error@ == e@
                &&& r.1 matches DeleteAction::RestoreBoth(v)
                &&& records_view(v@) == restored_history(*deletion)
            },
            (
                DeletePhase::Restoring { error },
                DeleteEvent::Restored { history_error, image_error },
            ) => {
                &&& r.0 == DeletePhase::Finished
                &&& r.1 matches DeleteAction::Finish(Err(m))
                &&& m@ == "删除历史图片失败："@ + error@ + restore_detail(
                    history_error is Some,
                    image_error is Some,
                )
            },
            _ => false,
        },
{
    match (phase, event) {
        (DeletePhase::Inspecting, DeleteEvent::ImageNotRegular) => (
            DeletePhase::Finished,
            DeleteAction::Finish(Err(copy_str("历史图片不是普通文件，拒绝删除"))),
        ),
        (DeletePhase::Inspecting, DeleteEvent::ImageRegular) => (
            DeletePhase::Stashing,
            DeleteAction::StashImage,
        ),
        (DeletePhase::Inspecting, _) => (
            DeletePhase::WritingHistory { moved: false },
            DeleteAction::WriteHistory(copy_records(&deletion.remaining)),
        ),
        (DeletePhase::Stashing, DeleteEvent::Succeeded) => (
            DeletePhase::WritingHistory { moved: true },
            DeleteAction::WriteHistory(copy_records(&deletion.remaining)),
        ),
        (DeletePhase::Stashing, DeleteEvent::Failed(e)) => {
            let mut m = copy_str("暂存历史图片失败：");
            append_str(&mut m, e.as_str());
            (DeletePhase::Finished, DeleteAction::Finish(Err(m)))
        },
        (DeletePhase::WritingHistory { moved }, DeleteEvent::Succeeded) => {
            if moved {
                (DeletePhase::RemovingTombstone, DeleteAction::RemoveTombstone)
            } else {
                (DeletePhase::Finished, DeleteAction::Finish(Ok(())))
            }
        },
        (DeletePhase::WritingHistory { moved }, DeleteEvent::Failed(e)) => {
            if moved {
                (DeletePhase::Returning { error: e }, DeleteAction::ReturnImage)
            } else {
                (DeletePhase::Finished, DeleteAction::Finish(Err(e)))
            }
        },
        (DeletePhase::Returning { error }, _) => (DeletePhase::Finished, DeleteAction::Finish(Err(error))),
        (DeletePhase::RemovingTombstone, DeleteEvent::Failed(e)) => {
            let mut restored = copy_records(&deletion.remaining);
            let ghost before = restored@;
            restored.insert(deletion.index, deletion.record.duplicate());
            assert(records_view(restored@) =~= records_view(before).insert(
                deletion.index as int,
                deletion.record@,
            ));
            (DeletePhase::Restoring { error: e }, DeleteAction::RestoreBoth(restored))
        },
        (DeletePhase::Restoring { error }, DeleteEvent::Restored { history_error, image_error }) => (
            DeletePhase::Finished,
            DeleteAction::Finish(Err(delete_failure_message(error.as_str(), &history_error, &image_error))),
        ),
        (_, _) => (DeletePhase::Finished, DeleteAction::Finish(Ok(()))),
    }
}

} // verus!
