//! The tools of the MCP server: their requests, what each one changes in
//! the provider settings, and the shape of what they answer.
use vstd::prelude::*;
use crate::api::{clamp_quantity, clamped_quantity};
use crate::storage::{
    find_provider, invalid_image_name_message, joined, position_named, providers_view,
    strings_view, valid_image_file_name, well_formed, HistoryRecord, HistoryRecordView, Provider, ProviderState,
    ProviderStateView, ProviderView, Storage,
};
use crate::text::{blank, copy_str, is_blank, is_empty_text};

verus! {

/// Arguments of the `generate_image` tool.
#[derive(Clone, Debug)]
pub struct GenerateImageRequest {
    pub prompt: String,
    pub resolution: Option<String>,
    pub image_format: Option<String>,
    pub quantity: Option<u32>,
    pub provider: Option<String>,
}

/// Arguments of the `delete_history` tool.
#[derive(Clone, Debug)]
pub struct DeleteHistoryRequest {
    pub id: String,
}

/// Arguments of the `save_provider` tool.
#[derive(Clone, Debug)]
pub struct SaveProviderRequest {
    pub name: String,
    pub base_url: String,
    pub api_key: Option<String>,
    pub model: Option<String>,
    pub models: Option<Vec<String>>,
}

/// Arguments of the tools that name one provider.
#[derive(Clone, Debug)]
pub struct ProviderNameRequest {
    pub name: String,
}

/// The view of an optional string, `default` when absent.
pub open spec fn text_or(o: Option<String>, default: Seq<char>) -> Seq<char> {
    match o {
        Some(s) => s@,
        None => default,
    }
}

/// The view of an optional list of strings, `default` when absent.
pub open spec fn strings_or(o: Option<Vec<String>>, default: Seq<Seq<char>>) -> Seq<Seq<char>> {
    match o {
        Some(v) => strings_view(v@),
        None => default,
    }
}

/// An existing provider after `save_provider`: the base URL is replaced and
/// each of key, model and model list only when the request gives it.
pub open spec fn saved_over(p: ProviderView, req: SaveProviderRequest) -> ProviderView {
    ProviderView {
        name: p.name,
        base_url: req.base_url@,
        api_key: text_or(req.api_key, p.api_key),
        model: text_or(req.model, p.model),
        models: strings_or(req.models, p.models),
    }
}

/// A provider created by `save_provider`: what is not given is empty.
pub open spec fn saved_new(req: SaveProviderRequest) -> ProviderView {
    ProviderView {
        name: req.name@,
        base_url: req.base_url@,
        api_key: text_or(req.api_key, Seq::empty()),
        model: text_or(req.model, Seq::empty()),
        models: strings_or(req.models, Seq::empty()),
    }
}

/// The settings after `save_provider`: the first provider of that name is
/// updated, or a new one is appended when there is none.
pub open spec fn after_save(s: ProviderStateView, req: SaveProviderRequest) -> ProviderStateView {
    match position_named(s.providers, req.name@) {
        Some(i) => ProviderStateView {
            providers: s.providers.update(i, saved_over(s.providers[i], req)),
            ..s
        },
        None => ProviderStateView { providers: s.providers.push(saved_new(req)), ..s },
    }
}

/// The current index after provider `i` is removed from `n + 1` providers.
pub open spec fn index_after_removal(current: nat, i: int, n: nat) -> nat {
    if current > i {
        (current - 1) as nat
    } else if current >= n {
        (n - 1) as nat
    } else {
        current
    }
}

/// The settings after provider `i` is deleted.
pub open spec fn after_delete(s: ProviderStateView, i: int) -> ProviderStateView {
    ProviderStateView {
        current_index: index_after_removal(s.current_index, i, (s.providers.len() - 1) as nat),
        providers: s.providers.remove(i),
    }
}

/// A provider after a model list was fetched for it: the list is stored and
/// the first model becomes the model when none was set.
pub open spec fn with_fetched_models(p: ProviderView, models: Seq<Seq<char>>) -> ProviderView {
    ProviderView {
        models,
        model: if p.model.len() == 0 && models.len() > 0 {
            models[0]
        } else {
            p.model
        },
        ..p
    }
}

/// A copy of an optional list of strings.
fn copy_optional_strings(o: &Option<Vec<String>>) -> (r: Option<Vec<String>>)
    ensures
        r is Some <==> o is Some,
        r matches Some(v) ==> strings_view(v@) == strings_or(*o, Seq::empty()),
{
    match o {
        Some(v) => Some(crate::storage::copy_strings(v)),
        None => None,
    }
}

/// A copy of an optional string.
fn copy_optional(o: &Option<String>) -> (r: Option<String>)
    ensures
        r is Some <==> o is Some,
        r matches Some(s) ==> s@ == text_or(*o, Seq::empty()),
{
    match o {
        Some(s) => Some(copy_str(s.as_str())),
        None => None,
    }
}

impl ImgGenMcp {
    /// `save_provider`: a request without a name or base URL is refused (see
    /// [`Self::check_save_provider`]); otherwise the first provider named like
    /// the request is updated, or a new one appended, and the provider is
    /// answered as saved.
    pub fn save_provider(state: &mut ProviderState, request: &SaveProviderRequest) -> (r: Result<
        Provider,
        String,
    >)
        ensures
            is_blank(request.name@) ==> (r matches Err(e) && e@ == "供应商名称不能为空"@)
                && final(state)@ == old(state)@,
            !is_blank(request.name@) && is_blank(request.base_url@) ==> (r matches Err(e) && e@
                == "Base URL 不能为空"@) && final(state)@ == old(state)@,
            !is_blank(request.name@) && !is_blank(request.base_url@) ==> (r matches Ok(saved)
                && final(state)@ == after_save(old(state)@, *request) && saved@ == match position_named(
                old(state)@.providers,
                request.name@,
            ) {
                Some(i) => saved_over(old(state)@.providers[i], *request),
                None => saved_new(*request),
            }),
            well_formed(old(state)@) ==> well_formed(final(state)@),
    {
        if let Err(e) = Self::check_save_provider(request) {
            return Err(e);
        }
        let ghost old_ps = providers_view(state.providers@);
        match find_provider(&state.providers, request.name.as_str()) {
            Some(i) => {
                let mut p = state.providers[i].duplicate();
                p.base_url = copy_str(request.base_url.as_str());
                if let Some(k) = copy_optional(&request.api_key) {
                    p.api_key = k;
                }
                if let Some(m) = copy_optional(&request.model) {
                    p.model = m;
                }
                if let Some(ms) = copy_optional_strings(&request.models) {
                    p.models = ms;
                }
                let out = p.duplicate();
                state.providers.set(i, p);
                assert(providers_view(state.providers@) =~= old_ps.update(
                    i as int,
                    saved_over(old_ps[i as int], *request),
                ));
                Ok(out)
            },
            None => {
                let p = Provider {
                    name: copy_str(request.name.as_str()),
                    base_url: copy_str(request.base_url.as_str()),
                    api_key: match copy_optional(&request.api_key) {
                        Some(k) => k,
                        None => String::new(),
                    },
                    model: match copy_optional(&request.model) {
                        Some(m) => m,
                        None => String::new(),
                    },
                    models: match copy_optional_strings(&request.models) {
                        Some(ms) => ms,
                        None => Vec::new(),
                    },
                };
                assert(strings_view(p.models@) =~= strings_or(request.models, Seq::empty()));
                let out = p.duplicate();
                state.providers.push(p);
                assert(providers_view(state.providers@) =~= old_ps.push(saved_new(*request)));
                Ok(out)
            },
        }
    }

    /// `delete_provider`: deletes the first provider called like the request, keeping the current index
    /// on the same provider where it can. At least one provider is kept:
    /// with one or none the request is refused and nothing changes.
    pub fn delete_provider(state: &mut ProviderState, request: &ProviderNameRequest) -> (r: Result<bool, String>)
        ensures
            old(state)@.providers.len() <= 1 ==> (r matches Err(e) && e@ == "至少保留一个 API 提供商"@
                && final(state)@ == old(state)@),
            old(state)@.providers.len() > 1 ==> match position_named(old(state)@.providers, request.name@) {
                Some(i) => r == Ok::<bool, String>(true) && final(state)@ == after_delete(old(state)@, i),
                None => r == Ok::<bool, String>(false) && final(state)@ == old(state)@,
            },
            well_formed(old(state)@) ==> well_formed(final(state)@),
    {
        if state.providers.len() <= 1 {
            return Err(copy_str("至少保留一个 API 提供商"));
        }
        let ghost old_ps = providers_view(state.providers@);
        match find_provider(&state.providers, request.name.as_str()) {
            None => Ok(false),
            Some(index) => {
                state.providers.remove(index);
                assert(providers_view(state.providers@) =~= old_ps.remove(index as int));
                if state.current_index > index {
                    state.current_index = state.current_index - 1;
                } else if state.current_index >= state.providers.len() {
                    state.current_index = state.providers.len() - 1;
                }
                Ok(true)
            },
        }
    }

    /// `select_provider`: makes the first provider called like the request
    /// the current one and answers its index.
    pub fn select_provider(state: &mut ProviderState, request: &ProviderNameRequest) -> (r: Result<usize, String>)
        ensures
            match position_named(old(state)@.providers, request.name@) {
                Some(i) => r == Ok::<usize, String>(i as usize) && final(state)@ == (ProviderStateView {
                    current_index: i as nat,
                    ..old(state)@
                }),
                None => (r matches Err(e) && e@ == "没有找到指定 API 提供商"@) && final(state)@ == old(state)@,
            },
            well_formed(old(state)@) ==> well_formed(final(state)@),
    {
        match find_provider(&state.providers, request.name.as_str()) {
            None => Err(copy_str("没有找到指定 API 提供商")),
            Some(index) => {
                state.current_index = index;
                Ok(index)
            },
        }
    }

    /// `fetch_provider_models`: stores a fetched model list on the first
    /// provider called like the request; the first model becomes its model
    /// when it had none.
    pub fn fetch_provider_models(state: &mut ProviderState, request: &ProviderNameRequest, models: Vec<String>) -> (r: Result<(), String>)
        ensures
            match position_named(old(state)@.providers, request.name@) {
                Some(i) => r is Ok && final(state)@ == (ProviderStateView {
                    providers: old(state)@.providers.update(
                        i,
                        with_fetched_models(old(state)@.providers[i], strings_view(models@)),
                    ),
                    ..old(state)@
                }),
                None => (r matches Err(e) && e@ == "没有找到指定 API 提供商"@) && final(state)@ == old(state)@,
            },
            well_formed(old(state)@) ==> well_formed(final(state)@),
    {
        let ghost old_ps = providers_view(state.providers@);
        match find_provider(&state.providers, request.name.as_str()) {
            None => Err(copy_str("没有找到指定 API 提供商")),
            Some(i) => {
                let mut p = state.providers[i].duplicate();
                let first = if models.len() > 0 {
                    Some(copy_str(models[0].as_str()))
                } else {
                    None
                };
                p.models = models;
                if is_empty_text(p.model.as_str()) {
                    if let Some(f) = first {
                        p.model = f;
                    }
                }
                state.providers.set(i, p);
                assert(providers_view(state.providers@) =~= old_ps.update(
                    i as int,
                    with_fetched_models(old_ps[i as int], strings_view(models@)),
                ));
                Ok(())
            },
        }
    }
}

/// The provider a request names, or the current one when it names none.
pub open spec fn selected_index(s: ProviderStateView, name: Option<Seq<char>>) -> Option<int> {
    match name {
        Some(n) => position_named(s.providers, n),
        None => if s.current_index < s.providers.len() {
            Some(s.current_index as int)
        } else {
            None
        },
    }
}

/// The answer when no provider can be selected.
pub open spec fn selection_error(name: Option<Seq<char>>) -> Seq<char> {
    match name {
        Some(_) => "没有找到指定 API 提供商"@,
        None => "没有可用的 API 提供商"@,
    }
}

/// The view of an optional string slice.
pub open spec fn str_opt_view(o: Option<&str>) -> Option<Seq<char>> {
    match o {
        Some(s) => Some(s@),
        None => None,
    }
}

/// The first provider called `name`, or the current provider when no name
/// is given.
pub fn select_provider<'a>(state: &'a ProviderState, name: Option<&str>) -> (r: Result<
    &'a Provider,
    String,
>)
    ensures
        match selected_index(state@, str_opt_view(name)) {
            Some(i) => r matches Ok(p) && p@ == state@.providers[i],
            None => r matches Err(e) && e@ == selection_error(str_opt_view(name)),
        },
{
    match name {
        Some(n) => match find_provider(&state.providers, n) {
            Some(i) => Ok(&state.providers[i]),
            None => Err(copy_str("没有找到指定 API 提供商")),
        },
        None => {
            if state.current_index < state.providers.len() {
                Ok(&state.providers[state.current_index])
            } else {
                Err(copy_str("没有可用的 API 提供商"))
            }
        },
    }
}

/// A provider as the MCP tools show it: everything but the API key.
#[derive(Clone, Debug)]
pub struct ProviderOutput {
    pub name: String,
    pub base_url: String,
    pub model: String,
    pub models: Vec<String>,
}

/// A history record as the MCP tools show it: the image file is given by
/// its full path.
#[derive(Clone, Debug)]
pub struct HistoryOutput {
    pub id: String,
    pub created_at: u64,
    pub prompt: String,
    pub provider: String,
    pub model: String,
    pub resolution: String,
    pub image_format: String,
    pub quantity: u32,
    pub image_path: String,
}

/// `o` shows record `r` of `storage`: the same fields, the image file
/// given by its path in the images directory.
pub open spec fn shows_record(o: HistoryOutput, r: HistoryRecordView, storage: Storage) -> bool {
    &&& o.id@ == r.id
    &&& o.created_at == r.created_at
    &&& o.prompt@ == r.prompt
    &&& o.provider@ == r.provider
    &&& o.model@ == r.model
    &&& o.resolution@ == r.resolution
    &&& o.image_format@ == r.image_format
    &&& o.quantity == r.quantity
    &&& o.image_path@ == joined(storage.layout().images@, r.image_file, storage.layout().separator)
}

/// What the `generate_image` tool is to do.
#[derive(Clone, Debug)]
pub struct GenerationPlan {
    pub provider: Provider,
    pub prompt: String,
    pub resolution: String,
    pub image_format: String,
    pub quantity: u32,
}

/// The MCP server: its tools work on one data directory.
#[derive(Clone, Debug)]
pub struct ImgGenMcp {
    storage: Storage,
}

impl ImgGenMcp {
    /// The server's data directory.
    pub closed spec fn data(&self) -> Storage {
        self.storage
    }

    /// A server on `storage`.
    pub fn new(storage: Storage) -> (m: ImgGenMcp)
        ensures
            m.data() == storage,
    {
        ImgGenMcp { storage }
    }

    /// The server's data directory.
    pub fn storage(&self) -> (s: &Storage)
        ensures
            *s == self.data(),
    {
        &self.storage
    }

    /// How a record is shown: its image file becomes its path, and a record
    /// whose file name is not a generated one is refused.
    pub fn history_output(&self, record: HistoryRecord) -> (r: Result<HistoryOutput, String>)
        ensures
            r is Ok <==> valid_image_file_name(record.image_file@),
            r matches Err(e) ==> e@ == invalid_image_name_message(),
            r matches Ok(o) ==> shows_record(o, record@, self.data()),
    {
        let image_path = match self.storage.image_path(record.image_file.as_str()) {
            Ok(p) => p,
            Err(e) => return Err(e),
        };
        Ok(
            HistoryOutput {
                id: record.id,
                created_at: record.created_at,
                prompt: record.prompt,
                provider: record.provider,
                model: record.model,
                resolution: record.resolution,
                image_format: record.image_format,
                quantity: record.quantity,
                image_path,
            },
        )
    }

    /// How a list of records is shown, in order; the first record whose
    /// file name is not a generated one makes the whole answer an error.
    pub fn history_outputs(&self, records: Vec<HistoryRecord>) -> (r: Result<Vec<HistoryOutput>, String>)
        ensures
            r is Ok <==> forall|i: int|
                0 <= i < records@.len() ==> valid_image_file_name(#[trigger] records@[i].image_file@),
            r matches Err(e) ==> e@ == invalid_image_name_message(),
            r matches Ok(os) ==> os@.len() == records@.len() && forall|i: int|
                0 <= i < os@.len() ==> shows_record(#[trigger] os@[i], records@[i]@, self.data()),
    {
        let mut os: Vec<HistoryOutput> = Vec::new();
        let mut i: usize = 0;
        while i < records.len()
            invariant
                i <= records@.len(),
                os@.len() == i,
                forall|j: int| 0 <= j < i ==> valid_image_file_name(#[trigger] records@[j].image_file@),
                forall|j: int| 0 <= j < i ==> shows_record(#[trigger] os@[j], records@[j]@, self.data()),
            decreases records@.len() - i,
        {
            match self.history_output(records[i].duplicate()) {
                Ok(o) => os.push(o),
                Err(e) => return Err(e),
            }
            i += 1;
        }
        Ok(os)
    }

    /// How a provider is shown: its name, base URL, model and models; never
    /// its API key.
    pub fn provider_output(provider: &Provider) -> (o: ProviderOutput)
        ensures
            o.name@ == provider.name@,
            o.base_url@ == provider.base_url@,
            o.model@ == provider.model@,
            strings_view(o.models@) == strings_view(provider.models@),
    {
        ProviderOutput {
            name: copy_str(provider.name.as_str()),
            base_url: copy_str(provider.base_url.as_str()),
            model: copy_str(provider.model.as_str()),
            models: crate::storage::copy_strings(&provider.models),
        }
    }

    /// How all providers are shown, in order.
    pub fn provider_outputs(state: &ProviderState) -> (os: Vec<ProviderOutput>)
        ensures
            os@.len() == state.providers@.len(),
            forall|i: int|
                0 <= i < os@.len() ==> (#[trigger] os@[i]).name@ == state.providers@[i].name@
                    && os@[i].base_url@ == state.providers@[i].base_url@ && os@[i].model@
                    == state.providers@[i].model@ && strings_view(os@[i].models@) == strings_view(
                    state.providers@[i].models@,
                ),
    {
        let mut os: Vec<ProviderOutput> = Vec::new();
        let mut i: usize = 0;
        while i < state.providers.len()
            invariant
                i <= state.providers.len(),
                os@.len() == i,
                forall|j: int|
                    0 <= j < i ==> (#[trigger] os@[j]).name@ == state.providers@[j].name@
                        && os@[j].base_url@ == state.providers@[j].base_url@ && os@[j].model@
                        == state.providers@[j].model@ && strings_view(os@[j].models@)
                        == strings_view(state.providers@[j].models@),
            decreases state.providers.len() - i,
        {
            os.push(Self::provider_output(&state.providers[i]));
            i += 1;
        }
        os
    }

    /// The first check of `generate_image`, made before the settings are
    /// read: a blank prompt is refused.
    pub fn check_prompt(request: &GenerateImageRequest) -> (r: Result<(), String>)
        ensures
            is_blank(request.prompt@) <==> r is Err,
            r matches Err(e) ==> e@ == "prompt 不能为空"@,
    {
        if blank(request.prompt.as_str()) {
            Err(copy_str("prompt 不能为空"))
        } else {
            Ok(())
        }
    }

    /// What `generate_image` is to do, given the settings as read: a blank
    /// prompt is refused first, then a read error is passed on, then the
    /// named (or current) provider must exist. The resolution defaults to
    /// `1024 × 1024`, the format to `PNG` and the quantity to 1, clamped to
    /// 1..=10.
    pub fn generation_plan(state: Result<ProviderState, String>, request: &GenerateImageRequest) -> (r:
        Result<GenerationPlan, String>)
        ensures
            is_blank(request.prompt@) ==> (r matches Err(e) && e@ == "prompt 不能为空"@),
            !is_blank(request.prompt@) ==> match state {
                Err(e) => r == Err::<GenerationPlan, String>(e),
                Ok(s) => match selected_index(s@, opt_name(request.provider)) {
                    None => r matches Err(e) && e@ == selection_error(opt_name(request.provider)),
                    Some(i) => r matches Ok(p) && p.provider@ == s@.providers[i] && p.prompt@
                        == request.prompt@ && p.resolution@ == text_or(
                        request.resolution,
                        "1024 × 1024"@,
                    ) && p.image_format@ == text_or(request.image_format, "PNG"@) && p.quantity
                        == clamped_quantity(
                        match request.quantity {
                            Some(q) => q,
                            None => 1,
                        },
                    ),
                },
            },
    {
        if let Err(e) = Self::check_prompt(request) {
            return Err(e);
        }
        let state = match state {
            Err(e) => return Err(e),
            Ok(s) => s,
        };
        let name: Option<&str> = match &request.provider {
            Some(n) => Some(n.as_str()),
            None => None,
        };
        let provider = match select_provider(&state, name) {
            Err(e) => return Err(e),
            Ok(p) => p.duplicate(),
        };
        let resolution = match &request.resolution {
            Some(r) => copy_str(r.as_str()),
            None => copy_str("1024 × 1024"),
        };
        let image_format = match &request.image_format {
            Some(f) => copy_str(f.as_str()),
            None => copy_str("PNG"),
        };
        let quantity = clamp_quantity(
            match request.quantity {
                Some(q) => q,
                None => 1,
            },
        );
        Ok(GenerationPlan { provider, prompt: copy_str(request.prompt.as_str()), resolution, image_format, quantity })
    }

    /// A `save_provider` request must name the provider and its base URL.
    pub fn check_save_provider(request: &SaveProviderRequest) -> (r: Result<(), String>)
        ensures
            is_blank(request.name@) ==> (r matches Err(e) && e@ == "供应商名称不能为空"@),
            !is_blank(request.name@) && is_blank(request.base_url@) ==> (r matches Err(e) && e@
                == "Base URL 不能为空"@),
            !is_blank(request.name@) && !is_blank(request.base_url@) ==> r is Ok,
    {
        if blank(request.name.as_str()) {
            return Err(copy_str("供应商名称不能为空"));
        }
        if blank(request.base_url.as_str()) {
            return Err(copy_str("Base URL 不能为空"));
        }
        Ok(())
    }
}

/// The view of an optional provider name.
pub open spec fn opt_name(o: Option<String>) -> Option<Seq<char>> {
    match o {
        Some(s) => Some(s@),
        None => None,
    }
}

} // verus!
