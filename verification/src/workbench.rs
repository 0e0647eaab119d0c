//! The decisions behind the desktop workbench: editing the provider list,
//! applying fetched models, checking a generation before it starts, reading
//! the quantity field, labelling history entries and wording the status line.
use vstd::prelude::*;
use crate::api::clamped_quantity;
use crate::storage::{
    find_record, ids_of, providers_view, strings_view, HistoryRecord, Provider, ProviderView,
};
use crate::text::{
    append_str, blank, chars_of, copy_str, decimal, decimal_string, first_match, is_blank,
    string_from_range,
};

verus! {

/// Writes the edited fields into provider `index`, when there is one; its
/// model list is kept.
pub fn save_current_provider(
    providers: &mut Vec<Provider>,
    index: usize,
    name: &str,
    base_url: &str,
    api_key: &str,
    model: &str,
)
    ensures
        index < old(providers)@.len() ==> providers_view(final(providers)@) == providers_view(
            old(providers)@,
        ).update(
            index as int,
            ProviderView {
                name: name@,
                base_url: base_url@,
                api_key: api_key@,
                model: model@,
                ..old(providers)@[index as int]@
            },
        ),
        index >= old(providers)@.len() ==> providers_view(final(providers)@) == providers_view(
            old(providers)@,
        ),
{
    if index < providers.len() {
        let ghost before = providers_view(providers@);
        let mut p = providers[index].duplicate();
        p.name = copy_str(name);
        p.base_url = copy_str(base_url);
        p.api_key = copy_str(api_key);
        p.model = copy_str(model);
        providers.set(index, p);
        assert(providers_view(providers@) =~= before.update(
            index as int,
            ProviderView {
                name: name@,
                base_url: base_url@,
                api_key: api_key@,
                model: model@,
                ..before[index as int]
            },
        ));
    }
}

/// The name of the provider added as number `n`.
pub open spec fn new_provider_name(n: nat) -> Seq<char> {
    "新 API 提供商 "@ + decimal(n)
}

/// Appends a new, empty provider named after its position and answers its
/// index.
pub fn add_provider_entry(providers: &mut Vec<Provider>) -> (index: usize)
    requires
        old(providers)@.len() < usize::MAX,
    ensures
        index == old(providers)@.len(),
        providers_view(final(providers)@) == providers_view(old(providers)@).push(
            ProviderView {
                name: new_provider_name((index + 1) as nat),
                base_url: Seq::empty(),
                api_key: Seq::empty(),
                model: Seq::empty(),
                models: Seq::empty(),
            },
        ),
{
    let ghost before = providers_view(providers@);
    let index = providers.len();
    let mut name = copy_str("新 API 提供商 ");
    let number = decimal_string(index + 1);
    append_str(&mut name, number.as_str());
    let p = crate::storage::named_provider(name.as_str());
    providers.push(p);
    assert(providers_view(providers@) =~= before.push(p@));
    index
}

/// The index a list operation on `len` providers applies to.
pub open spec fn clamped_index(i: nat, len: nat) -> nat {
    if i < len {
        i
    } else {
        (len - 1) as nat
    }
}

/// Appends a copy of provider `source_index` (the last one when it is out
/// of range), named with ` 副本` after it, and answers the new index.
pub fn copy_provider_entry(providers: &mut Vec<Provider>, source_index: usize) -> (r: Result<
    usize,
    String,
>)
    requires
        old(providers)@.len() < usize::MAX,
    ensures
        old(providers)@.len() == 0 ==> (r matches Err(e) && e@ == "没有可复制的 API 提供商"@
            && final(providers)@ == old(providers)@),
        old(providers)@.len() > 0 ==> (r matches Ok(i) && i == old(providers)@.len()
            && providers_view(final(providers)@) == providers_view(old(providers)@).push(
            ({
                let source = old(providers)@[clamped_index(
                    source_index as nat,
                    old(providers)@.len(),
                ) as int]@;
                ProviderView { name: source.name + " 副本"@, ..source }
            }),
        )),
{
    if providers.len() == 0 {
        return Err(copy_str("没有可复制的 API 提供商"));
    }
    let ghost before = providers_view(providers@);
    let source = if source_index < providers.len() {
        source_index
    } else {
        providers.len() - 1
    };
    let mut copied = providers[source].duplicate();
    append_str(&mut copied.name, " 副本");
    let index = providers.len();
    let ghost c = copied@;
    providers.push(copied);
    assert(providers_view(providers@) =~= before.push(c));
    Ok(index)
}

/// Removes provider `source_index` (the last one when it is out of range)
/// and answers the index to show next. At least one provider is kept.
pub fn delete_provider_entry(providers: &mut Vec<Provider>, source_index: usize) -> (r: Result<
    usize,
    String,
>)
    ensures
        old(providers)@.len() <= 1 ==> (r matches Err(e) && e@ == "至少保留一个 API 提供商"@
            && final(providers)@ == old(providers)@),
        old(providers)@.len() > 1 ==> ({
            let removed = clamped_index(source_index as nat, old(providers)@.len()) as int;
            r matches Ok(next) && providers_view(final(providers)@) == providers_view(
                old(providers)@,
            ).remove(removed) && next == clamped_index(
                removed as nat,
                final(providers)@.len(),
            )
        }),
        old(providers)@.len() >= 1 ==> final(providers)@.len() >= 1,
{
    if providers.len() <= 1 {
        return Err(copy_str("至少保留一个 API 提供商"));
    }
    let ghost before = providers_view(providers@);
    let remove_index = if source_index < providers.len() {
        source_index
    } else {
        providers.len() - 1
    };
    providers.remove(remove_index);
    assert(providers_view(providers@) =~= before.remove(remove_index as int));
    let next = if remove_index < providers.len() {
        remove_index
    } else {
        providers.len() - 1
    };
    Ok(next)
}

/// A provider after the workbench fetched models for it: on success the
/// list is stored and its first model selected; on failure the list is
/// emptied.
pub open spec fn after_fetch(p: ProviderView, fetched: Result<Seq<Seq<char>>, Seq<char>>) -> ProviderView {
    match fetched {
        Ok(ms) => ProviderView {
            models: ms,
            model: if ms.len() > 0 {
                ms[0]
            } else {
                p.model
            },
            ..p
        },
        Err(_) => ProviderView { models: Seq::empty(), ..p },
    }
}

/// The view of a fetch outcome.
pub open spec fn fetched_view(r: Result<Vec<String>, String>) -> Result<Seq<Seq<char>>, Seq<char>> {
    match r {
        Ok(ms) => Ok(strings_view(ms@)),
        Err(e) => Err(e@),
    }
}

/// Applies the outcome of a model fetch to provider `index`, when there is
/// one.
pub fn apply_fetched_models(
    providers: &mut Vec<Provider>,
    index: usize,
    fetched: Result<Vec<String>, String>,
)
    ensures
        index < old(providers)@.len() ==> providers_view(final(providers)@) == providers_view(
            old(providers)@,
        ).update(index as int, after_fetch(old(providers)@[index as int]@, fetched_view(fetched))),
        index >= old(providers)@.len() ==> final(providers)@ == old(providers)@,
{
    if index >= providers.len() {
        return ;
    }
    let ghost before = providers_view(providers@);
    let mut p = providers[index].duplicate();
    match fetched {
        Ok(models) => {
            if models.len() > 0 {
                p.model = copy_str(models[0].as_str());
            }
            p.models = models;
        },
        Err(_) => {
            p.models = Vec::new();
            assert(strings_view(p.models@) =~= Seq::<Seq<char>>::empty());
        },
    }
    let ghost np = p@;
    providers.set(index, p);
    assert(providers_view(providers@) =~= before.update(index as int, np));
}

/// The models shown for provider `index`: its list, or none.
pub fn provider_models(providers: &Vec<Provider>, index: usize) -> (ms: Vec<String>)
    ensures
        index < providers@.len() ==> strings_view(ms@) == strings_view(
            providers@[index as int].models@,
        ),
        index >= providers@.len() ==> ms@.len() == 0,
{
    if index < providers.len() {
        crate::storage::copy_strings(&providers[index].models)
    } else {
        Vec::new()
    }
}

/// The record with id `id`, for previewing it.
pub fn find_history_record<'a>(records: &'a Vec<HistoryRecord>, id: &str) -> (r: Result<
    &'a HistoryRecord,
    String,
>)
    ensures
        match first_match(ids_of(records@), id@) {
            Some(i) => r matches Ok(rec) && rec@ == records@[i]@,
            None => r matches Err(e) && e@ == "没有找到对应的历史记录"@,
        },
{
    match find_record(records, id) {
        Some(i) => Ok(&records[i]),
        None => Err(copy_str("没有找到对应的历史记录")),
    }
}

/// The title of a history entry: the first 22 characters of the prompt, or
/// `未命名图片` for an empty prompt.
pub open spec fn entry_title(prompt: Seq<char>) -> Seq<char> {
    if prompt.len() == 0 {
        "未命名图片"@
    } else if prompt.len() <= 22 {
        prompt
    } else {
        prompt.take(22)
    }
}

/// The title and subtitle (`provider/model`) of a history entry.
pub fn history_item_text(record: &HistoryRecord) -> (r: (String, String))
    ensures
        r.0@ == entry_title(record.prompt@),
        r.1@ == record.provider@ + "/"@ + record.model@,
{
    let cs = chars_of(record.prompt.as_str());
    let title = if cs.len() == 0 {
        copy_str("未命名图片")
    } else if cs.len() <= 22 {
        string_from_range(&cs, 0, cs.len())
    } else {
        string_from_range(&cs, 0, 22)
    };
    assert(cs@.subrange(0, cs@.len() as int) == cs@);
    let mut subtitle = copy_str(record.provider.as_str());
    append_str(&mut subtitle, "/");
    append_str(&mut subtitle, record.model.as_str());
    (title, subtitle)
}

/// Every character is an ASCII digit.
pub open spec fn all_digits(s: Seq<char>) -> bool {
    forall|i: int| 0 <= i < s.len() ==> '0' <= #[trigger] s[i] <= '9'
}

/// The number the ASCII digits `s` spell.
pub open spec fn digits_value(s: Seq<char>) -> int
    decreases s.len(),
{
    if s.len() == 0 {
        0
    } else {
        digits_value(s.drop_last()) * 10 + (s.last() as int - 48)
    }
}

/// `u32::from_str`: an optional `+`, then at least one ASCII digit, and a
/// value that fits.
pub open spec fn parsed_u32(s: Seq<char>) -> Option<u32> {
    let d = if s.len() > 0 && s[0] == '+' {
        s.drop_first()
    } else {
        s
    };
    if d.len() > 0 && all_digits(d) && digits_value(d) <= u32::MAX {
        Some(digits_value(d) as u32)
    } else {
        None
    }
}

/// The quantity of the workbench's quantity field: its number, 1 when it
/// is not one, clamped to 1..=10.
pub open spec fn quantity_of(text: Seq<char>) -> u32 {
    clamped_quantity(
        match parsed_u32(text) {
            Some(q) => q,
            None => 1,
        },
    )
}

proof fn lemma_digits_value_grows(s: Seq<char>, i: int)
    requires
        all_digits(s),
        0 <= i <= s.len(),
    ensures
        0 <= digits_value(s.take(i)) <= digits_value(s),
    decreases s.len(),
{
    if s.len() > 0 {
        if i == s.len() {
            assert(s.take(i) == s);
            lemma_digits_value_grows(s.drop_last(), i - 1);
            assert(s.drop_last().take(i - 1) == s.drop_last());
        } else {
            assert(s.drop_last().take(i) == s.take(i));
            lemma_digits_value_grows(s.drop_last(), i);
        }
    } else {
        assert(s.take(i) == s);
    }
}

/// The quantity of the workbench's quantity field (see [`quantity_of`]).
pub fn parse_quantity(text: &str) -> (q: u32)
    ensures
        q == quantity_of(text@),
        1 <= q <= 10,
{
    let cs = chars_of(text);
    let start: usize = if cs.len() > 0 && cs[0] == '+' {
        1
    } else {
        0
    };
    let ghost d = cs@.subrange(start as int, cs@.len() as int);
    assert(start == 1 ==> d == cs@.drop_first());
    assert(start == 0 ==> d == cs@);
    let mut value: u64 = 0;
    let mut i: usize = start;
    let mut ok = cs.len() > start;
    let mut over = false;
    while i < cs.len()
        invariant
            start <= i <= cs.len(),
            d == cs@.subrange(start as int, cs@.len() as int),
            ok ==> all_digits(cs@.subrange(start as int, i as int)),
            ok ==> (over <==> digits_value(cs@.subrange(start as int, i as int)) > u32::MAX),
            ok && !over ==> value == digits_value(cs@.subrange(start as int, i as int)),
            !ok ==> !(d.len() > 0 && all_digits(d)),
        decreases cs.len() - i,
    {
        let c = cs[i];
        let ghost pre = cs@.subrange(start as int, i as int);
        let ghost next = cs@.subrange(start as int, i + 1);
        assert(next.drop_last() == pre);
        assert(next.last() == c);
        if !('0' <= c && c <= '9') {
            if ok {
                assert(d[i - start] == c);
            }
            ok = false;
        } else if ok {
            assert(all_digits(next));
            if !over {
                let v = value * 10 + ((c as u32) - 48) as u64;
                if v > 0xffff_ffffu64 {
                    over = true;
                } else {
                    value = v;
                }
            } else {
                proof {
                    lemma_digits_value_grows(next, pre.len() as int);
                    assert(next.take(pre.len() as int) == pre);
                }
            }
        }
        i += 1;
    }
    assert(cs@.subrange(start as int, cs@.len() as int) == d);
    let parsed: u32 = if ok && !over {
        value as u32
    } else {
        1
    };
    if parsed < 1 {
        1
    } else if parsed > 10 {
        10
    } else {
        parsed
    }
}

/// The first check of a generation: a model must be chosen.
pub fn check_model_chosen(model: &str) -> (r: Result<(), String>)
    ensures
        is_blank(model@) <==> r is Err,
        r matches Err(e) ==> e@ == "没有选择模型，请先在 API 提供商中获取模型"@,
{
    if blank(model) {
        Err(copy_str("没有选择模型，请先在 API 提供商中获取模型"))
    } else {
        Ok(())
    }
}

/// The check of a generation made once the settings are saved: a prompt
/// must be written.
pub fn check_prompt_written(prompt: &str) -> (r: Result<(), String>)
    ensures
        is_blank(prompt@) <==> r is Err,
        r matches Err(e) ==> e@ == "先写一句提示词吧"@,
{
    if blank(prompt) {
        Err(copy_str("先写一句提示词吧"))
    } else {
        Ok(())
    }
}

/// The provider a generation is sent with: the fields as edited and the
/// chosen model, with no model list.
pub fn generation_provider(name: &str, base_url: &str, api_key: &str, model: &str) -> (p: Provider)
    ensures
        p@ == (ProviderView {
            name: name@,
            base_url: base_url@,
            api_key: api_key@,
            model: model@,
            models: Seq::empty(),
        }),
{
    let p = Provider {
        name: copy_str(name),
        base_url: copy_str(base_url),
        api_key: copy_str(api_key),
        model: copy_str(model),
        models: Vec::new(),
    };
    assert(strings_view(p.models@) =~= Seq::<Seq<char>>::empty());
    p
}

/// Something the workbench reports on its status line.
#[derive(Clone, Debug)]
pub enum StatusEvent {
    /// The provider with this name was switched to.
    ProviderSwitched(String),
    /// A provider was added at this index.
    ProviderAdded(usize),
    /// A provider was copied under this name.
    ProviderCopied(String),
    /// The provider with this name was saved.
    ProviderSaved(String),
    /// This many models were fetched.
    ModelsFetched(usize),
    /// This model was chosen.
    ModelSelected(String),
    /// A generation stored this many images.
    ImagesSaved(usize),
}

/// The status line for an event.
pub open spec fn status_message(e: StatusEvent) -> Seq<char> {
    match e {
        StatusEvent::ProviderSwitched(name) => "切换 API 提供商成功："@ + name@,
        StatusEvent::ProviderAdded(index) => "新建 API 提供商成功："@ + new_provider_name(
            (index + 1) as nat,
        ),
        StatusEvent::ProviderCopied(name) => "复制 API 提供商成功："@ + name@,
        StatusEvent::ProviderSaved(name) => "保存 API 提供商成功："@ + name@,
        StatusEvent::ModelsFetched(n) => "获取模型成功，共 "@ + decimal(n as nat) + " 个模型"@,
        StatusEvent::ModelSelected(model) => "模型选择成功："@ + model@,
        StatusEvent::ImagesSaved(n) => "图片生成完成，已保存 "@ + decimal(n as nat) + " 张"@,
    }
}

/// Words the status line for an event (see [`status_message`]).
pub fn status_text(e: &StatusEvent) -> (s: String)
    requires
        e matches StatusEvent::ProviderAdded(index) ==> index < usize::MAX,
    ensures
        s@ == status_message(*e),
{
    match e {
        StatusEvent::ProviderSwitched(name) => {
            let mut s = copy_str("切换 API 提供商成功：");
            append_str(&mut s, name.as_str());
            s
        },
        StatusEvent::ProviderAdded(index) => {
            let mut s = copy_str("新建 API 提供商成功：");
            append_str(&mut s, "新 API 提供商 ");
            let number = decimal_string(*index + 1);
            append_str(&mut s, number.as_str());
            s
        },
        StatusEvent::ProviderCopied(name) => {
            let mut s = copy_str("复制 API 提供商成功：");
            append_str(&mut s, name.as_str());
            s
        },
        StatusEvent::ProviderSaved(name) => {
            let mut s = copy_str("保存 API 提供商成功：");
            append_str(&mut s, name.as_str());
            s
        },
        StatusEvent::ModelsFetched(n) => {
            let mut s = copy_str("获取模型成功，共 ");
            let number = decimal_string(*n);
            append_str(&mut s, number.as_str());
            append_str(&mut s, " 个模型");
            s
        },
        StatusEvent::ModelSelected(model) => {
            let mut s = copy_str("模型选择成功：");
            append_str(&mut s, model.as_str());
            s
        },
        StatusEvent::ImagesSaved(n) => {
            let mut s = copy_str("图片生成完成，已保存 ");
            let number = decimal_string(*n);
            append_str(&mut s, number.as_str());
            append_str(&mut s, " 张");
            s
        },
    }
}

} // verus!
