//! Properties that hold across the library's operations.
use vstd::prelude::*;
use crate::api::{detected_extension, endpoint_url, base64_decoded, item_image, size_for, ImageSource};
use crate::mcp::{after_delete, after_save, saved_new, saved_over, selected_index};
use crate::storage::{
    image_files_of, stale_names,
    is_store_run, store_begins_image, store_event_fits, store_transition, ImagePayload, StoreAction, StoreEvent,
    StorePhase,
    records_view, restored_history, HistoryDeletion, kept_records, loaded_state, normalized, normalized_extension, is_separator, joined,
    position_named, staged_file_name, valid_image_file_name, well_formed, HistoryRecord,
    ProviderStateView,
};
use crate::mcp::SaveProviderRequest;
use crate::text::{has_prefix, has_suffix, strip_leading, strip_trailing};

verus! {

/// Every request asks for between 1 and 10 images.
pub proof fn law_quantity_in_range(q: u32)
    ensures
        1 <= crate::api::clamped_quantity(q) <= 10,
        1 <= q <= 10 ==> crate::api::clamped_quantity(q) == q,
{
}

/// Normalizing settings twice changes nothing more than normalizing once.
pub proof fn law_normalize_idempotent(s: ProviderStateView)
    ensures
        normalized(normalized(s)) == normalized(s),
        well_formed(normalized(s)),
{
}

/// Settings that were saved read back as they were saved.
pub proof fn law_saved_settings_read_back(s: ProviderStateView)
    ensures
        loaded_state(Some(normalized(s))) == normalized(s),
{
}

/// Saving an existing provider without an API key keeps its key.
pub proof fn law_save_without_key_keeps_key(s: ProviderStateView, req: SaveProviderRequest)
    requires
        req.api_key is None,
        position_named(s.providers, req.name@) is Some,
    ensures
        ({
            let i = position_named(s.providers, req.name@)->0;
            after_save(s, req).providers[i].api_key == s.providers[i].api_key
        }),
{
    crate::text::lemma_first_match_some(crate::storage::names_of(s.providers), req.name@);
}

/// After a provider is selected by name, the current provider is the one
/// of that name.
pub proof fn law_selected_provider_is_current(s: ProviderStateView, name: Seq<char>)
    requires
        position_named(s.providers, name) is Some,
    ensures
        ({
            let i = position_named(s.providers, name)->0;
            let after = ProviderStateView { current_index: i as nat, ..s };
            selected_index(after, None) == Some(i) && after.providers[i].name == name
        }),
{
    crate::text::lemma_first_match_some(crate::storage::names_of(s.providers), name);
    let i = position_named(s.providers, name)->0;
    assert(crate::storage::names_of(s.providers)[i] == s.providers[i].name);
}

/// An image path is the images directory followed by the file name, and a
/// valid file name holds no path separator: the path never leaves the
/// images directory.
pub proof fn law_image_path_in_images_dir(dir: Seq<char>, name: Seq<char>, sep: char)
    requires
        valid_image_file_name(name),
        sep == '/' || sep == '\\',
    ensures
        has_prefix(joined(dir, name, sep), dir),
        has_suffix(joined(dir, name, sep), name),
        forall|i: int| 0 <= i < name.len() ==> !is_separator(#[trigger] name[i], sep),
{
    let j = joined(dir, name, sep);
    if dir.len() == 0 || is_separator(dir.last(), sep) {
        assert(j.subrange(0, dir.len() as int) =~= dir);
        assert(j.subrange(j.len() - name.len(), j.len() as int) =~= name);
    } else {
        assert(j.subrange(0, dir.len() as int) =~= dir);
        assert(j.subrange(j.len() - name.len(), j.len() as int) =~= name);
    }
    assert forall|i: int| 0 <= i < name.len() implies !is_separator(#[trigger] name[i], sep) by {
        if name[i] == '/' {
            assert(name.contains('/'));
        }
        if name[i] == '\\' {
            assert(name.contains('\\'));
        }
    }
}

/// Asking for an endpoint of a URL already built for that path gives the
/// same URL, provided the path does not end with a slash.
pub proof fn law_endpoint_idempotent(base: Seq<char>, path: Seq<char>)
    requires
        strip_leading(path, '/').len() == 0 || strip_leading(path, '/').last() != '/',
    ensures
        endpoint_url(endpoint_url(base, path), path) == endpoint_url(base, path),
{
    let b = strip_trailing(base, '/');
    let p = strip_leading(path, '/');
    lemma_strip_trailing_result(base);
    let e = endpoint_url(base, path);
    if has_suffix(b, p) {
        assert(e == b);
        lemma_strip_trailing_fixed(b);
    } else {
        assert(e == b.push('/') + p);
        if p.len() == 0 {
            assert(b.subrange(b.len() - 0, b.len() as int) =~= p);
        }
        assert(e.last() == p.last());
        lemma_strip_trailing_fixed(e);
        assert(e.subrange(e.len() - p.len(), e.len() as int) =~= p);
    }
}

proof fn lemma_strip_trailing_result(s: Seq<char>)
    ensures
        strip_trailing(s, '/').len() == 0 || strip_trailing(s, '/').last() != '/',
    decreases s.len(),
{
    if s.len() > 0 && s.last() == '/' {
        lemma_strip_trailing_result(s.drop_last());
    }
}

proof fn lemma_strip_trailing_fixed(s: Seq<char>)
    requires
        s.len() == 0 || s.last() != '/',
    ensures
        strip_trailing(s, '/') == s,
{
}

/// The URL of an endpoint always ends with the path, its leading slashes
/// removed.
pub proof fn law_endpoint_ends_with_path(base: Seq<char>, path: Seq<char>)
    ensures
        has_suffix(endpoint_url(base, path), strip_leading(path, '/')),
{
    let b = strip_trailing(base, '/');
    let p = strip_leading(path, '/');
    if !has_suffix(b, p) {
        let e = b.push('/') + p;
        assert(e.subrange(e.len() - p.len(), e.len() as int) =~= p);
    }
}

/// Every record a reload keeps names a generated image file, so a second
/// reload that finds all their images keeps them all.
pub proof fn law_reload_keeps_what_it_kept(rs: Seq<HistoryRecord>, present: Seq<bool>)
    requires
        present.len() == rs.len(),
    ensures
        forall|i: int|
            0 <= i < kept_records(rs, present).len() ==> valid_image_file_name(
                #[trigger] kept_records(rs, present)[i].image_file@,
            ),
        kept_records(
            kept_records(rs, present),
            Seq::new(kept_records(rs, present).len(), |i: int| true),
        ) == kept_records(rs, present),
{
    lemma_kept_valid(rs, present);
    let k = kept_records(rs, present);
    lemma_kept_all(k, Seq::new(k.len(), |i: int| true));
}

/// A reload that finds every image of valid records keeps them all.
proof fn lemma_kept_all(k: Seq<HistoryRecord>, present: Seq<bool>)
    requires
        present.len() == k.len(),
        forall|i: int| 0 <= i < present.len() ==> present[i],
        forall|i: int| 0 <= i < k.len() ==> valid_image_file_name(#[trigger] k[i].image_file@),
    ensures
        kept_records(k, present) == k,
    decreases k.len(),
{
    if k.len() > 0 {
        lemma_kept_all(k.drop_last(), present.drop_last());
        assert(k.drop_last().push(k.last()) == k);
    }
}

proof fn lemma_kept_valid(rs: Seq<HistoryRecord>, present: Seq<bool>)
    requires
        present.len() == rs.len(),
    ensures
        forall|i: int|
            0 <= i < kept_records(rs, present).len() ==> valid_image_file_name(
                #[trigger] kept_records(rs, present)[i].image_file@,
            ),
    decreases rs.len(),
{
    if rs.len() > 0 {
        lemma_kept_valid(rs.drop_last(), present.drop_last());
        let rest = kept_records(rs.drop_last(), present.drop_last());
        let k = kept_records(rs, present);
        assert forall|i: int| 0 <= i < k.len() implies valid_image_file_name(
            #[trigger] k[i].image_file@,
        ) by {
            if i < rest.len() {
                assert(k[i] == rest[i]);
            }
        }
    }
}

/// The extensions images are stored under.
pub open spec fn stored_extension(e: Seq<char>) -> bool {
    e == "png"@ || e == "jpg"@ || e == "webp"@
}

proof fn lemma_literal_fixed(e: Seq<char>)
    requires
        e == "png"@ || e == "jpg"@ || e == "webp"@,
    ensures
        crate::text::trim(e) == e,
        crate::text::ascii_lower(e) == e,
{
    reveal_strlit("png");
    reveal_strlit("jpg");
    reveal_strlit("webp");
    assert(crate::text::trim_start(e) == e);
    assert(crate::text::trim_end(e) == e);
    assert(crate::text::ascii_lower(e) =~= e);
}

/// Extensions are always one of `png`, `jpg` and `webp`, and normalizing a
/// normalized extension keeps it.
pub proof fn law_normalized_extension_stable(e: Seq<char>)
    ensures
        stored_extension(normalized_extension(e)),
        normalized_extension(normalized_extension(e)) == normalized_extension(e),
{
    let n = normalized_extension(e);
    lemma_literal_fixed(n);
    reveal_strlit("png");
    reveal_strlit("jpg");
    reveal_strlit("jpeg");
    reveal_strlit("webp");
}

/// The detected extension of image bytes is always one images are stored
/// under.
pub proof fn law_detected_extension_stored(b: Seq<u8>, fallback: Seq<char>)
    ensures
        stored_extension(detected_extension(b, fallback)),
{
    law_normalized_extension_stable(fallback);
}

/// The file name of a stored image is a valid history image name exactly
/// when its id holds no path separator.
pub proof fn law_staged_name_valid(id: Seq<char>, extension: Seq<char>)
    ensures
        valid_image_file_name(staged_file_name(id, extension)) <==> (!id.contains('/')
            && !id.contains('\\')),
{
    law_normalized_extension_stable(extension);
    let ext = normalized_extension(extension);
    let name = staged_file_name(id, extension);
    reveal_strlit("imggen-");
    reveal_strlit(".");
    reveal_strlit("png");
    reveal_strlit("jpg");
    reveal_strlit("webp");
    reveal_strlit(".png");
    reveal_strlit(".jpg");
    reveal_strlit(".webp");
    let pre = "imggen-"@;
    assert(name == pre + id + "."@ + ext);
    assert(name.subrange(0, 7) =~= pre);
    let tail = "."@ + ext;
    assert(name.subrange(name.len() - tail.len(), name.len() as int) =~= tail);
    if ext == "png"@ {
        assert(tail =~= ".png"@);
    } else if ext == "jpg"@ {
        assert(tail =~= ".jpg"@);
    } else {
        assert(tail =~= ".webp"@);
    }
    assert forall|c: char| c == '/' || c == '\\' implies (name.contains(c) <==> id.contains(c)) by {
        if id.contains(c) {
            let k = choose|k: int| 0 <= k < id.len() && id[k] == c;
            assert(name[7 + k] == c);
        }
        if name.contains(c) {
            let k = choose|k: int| 0 <= k < name.len() && name[k] == c;
            if k < 7 {
                assert(name[k] == pre[k]);
            } else if k < 7 + id.len() {
                assert(name[k] == id[k - 7]);
            } else {
                assert(name[k] == tail[k - 7 - id.len()]);
            }
        }
    }
}

/// Putting a deleted record back where it stood gives the history as it was
/// before the delete.
pub proof fn law_restore_undoes_delete(rs: Seq<HistoryRecord>, d: HistoryDeletion)
    requires
        0 <= d.index < rs.len(),
        d.record@ == rs[d.index as int]@,
        records_view(d.remaining@) == records_view(rs.remove(d.index as int)),
    ensures
        restored_history(d) == records_view(rs),
{
    assert(restored_history(d) =~= records_view(rs));
}

/// A store run starts as [`store_start`] does.
proof fn lemma_store_run_start(
    records: Seq<HistoryRecord>,
    images: Seq<ImagePayload>,
    t: Seq<(StorePhase, StoreAction, StoreEvent)>,
)
    requires
        is_store_run(records, images, t),
    ensures
        t.len() > 0,
        store_begins_image(records, images, 0, (t[0].0, t[0].1)),
{
    reveal(is_store_run);
}

/// Each entry of a store run but the last is followed as [`store_step`]
/// says.
proof fn lemma_store_run_step(
    records: Seq<HistoryRecord>,
    images: Seq<ImagePayload>,
    t: Seq<(StorePhase, StoreAction, StoreEvent)>,
    k: int,
)
    requires
        is_store_run(records, images, t),
        0 <= k < t.len() - 1,
    ensures
        store_event_fits(t[k].0, t[k].2),
        store_transition(records, images, t[k].0, t[k].2, (t[k + 1].0, t[k + 1].1)),
{
    reveal(is_store_run);
    assert(store_event_fits(t[k].0, t[k].2));
}

/// In a run that ends in `Finish`, a finished phase comes only last.
proof fn lemma_store_finished_is_last(
    records: Seq<HistoryRecord>,
    images: Seq<ImagePayload>,
    t: Seq<(StorePhase, StoreAction, StoreEvent)>,
    j: int,
)
    requires
        is_store_run(records, images, t),
        t.last().1 == StoreAction::Finish,
        0 <= j < t.len(),
        t[j].0 == StorePhase::Finished,
    ensures
        j == t.len() - 1,
        t[j].1 == StoreAction::Finish,
{
    if j < t.len() - 1 {
        lemma_store_run_step(records, images, t, j);
    }
}

/// In a run that ends in `Finish`, images `0..=k` were each checked and
/// written, and every write before image `k` succeeded.
proof fn lemma_store_run_writes(
    records: Seq<HistoryRecord>,
    images: Seq<ImagePayload>,
    t: Seq<(StorePhase, StoreAction, StoreEvent)>,
    k: int,
)
    requires
        records.len() == images.len(),
        records.len() <= usize::MAX,
        is_store_run(records, images, t),
        t.last().1 == StoreAction::Finish,
        0 <= k < records.len(),
    ensures
        k < t.len() - 1,
        t[k].0 == StorePhase::WritingImage(k as usize),
        t[k].1 == StoreAction::WriteImage(k as usize),
        images[k].bytes@.len() > 0,
        valid_image_file_name(records[k].image_file@),
        forall|j: int| 0 <= j < k ==> (#[trigger] t[j]).1 == StoreAction::WriteImage(j as usize)
            && t[j].2 == StoreEvent::Succeeded && images[j].bytes@.len() > 0
            && valid_image_file_name(records[j].image_file@),
    decreases k,
{
    if k > 0 {
        lemma_store_run_writes(records, images, t, k - 1);
        let e = t[k - 1].2;
        lemma_store_run_step(records, images, t, k - 1);
        if e is Failed {
            lemma_store_finished_is_last(records, images, t, k);
        }
        assert(e == StoreEvent::Succeeded);
        assert(store_begins_image(records, images, k, (t[k].0, t[k].1)));
    } else {
        lemma_store_run_start(records, images, t);
    }
    if t[k].0 == StorePhase::Finished {
        lemma_store_finished_is_last(records, images, t, k);
    }
    if k == t.len() - 1 {
        assert(t[k].1 == t.last().1);
    }
}

/// A store run that finishes has checked and written every image of the
/// batch, in order, then read the history once and written it once, as the
/// batch's records followed by the history it read, and done nothing else.
pub proof fn law_finished_store_run(
    records: Seq<HistoryRecord>,
    images: Seq<ImagePayload>,
    t: Seq<(StorePhase, StoreAction, StoreEvent)>,
)
    requires
        0 < records.len() <= usize::MAX,
        records.len() == images.len(),
        is_store_run(records, images, t),
        t.last().1 == StoreAction::Finish,
    ensures
        t.len() == records.len() + 3,
        forall|k: int| 0 <= k < records.len() ==> (#[trigger] t[k]).1 == StoreAction::WriteImage(k as usize)
            && t[k].2 == StoreEvent::Succeeded && images[k].bytes@.len() > 0
            && valid_image_file_name(records[k].image_file@),
        t[records.len() as int].1 == StoreAction::ReadHistory,
        t[records.len() as int].2 matches StoreEvent::HistoryRead(old) && t[records.len() as int
            + 1].1 matches StoreAction::WriteHistory(all) && records_view(all@) == records_view(
            records,
        ) + records_view(old@),
        t[records.len() as int + 1].2 == StoreEvent::Succeeded,
{
    let n = records.len() as int;
    lemma_store_run_writes(records, images, t, n - 1);
    let e = t[n - 1].2;
    lemma_store_run_step(records, images, t, n - 1);
    if e is Failed {
        lemma_store_finished_is_last(records, images, t, n);
    }
    assert(t[n].0 == StorePhase::ReadingHistory);
    if n == t.len() - 1 {
        assert(t[n].1 == t.last().1);
    }
    let e2 = t[n].2;
    lemma_store_run_step(records, images, t, n);
    if e2 is Failed {
        lemma_store_finished_is_last(records, images, t, n + 1);
    }
    assert(t[n + 1].0 == StorePhase::WritingHistory);
    if n + 1 == t.len() - 1 {
        assert(t[n + 1].1 == t.last().1);
    }
    let e3 = t[n + 1].2;
    lemma_store_run_step(records, images, t, n + 1);
    if e3 is Failed {
        lemma_store_finished_is_last(records, images, t, n + 2);
    }
    assert(t[n + 2].0 == StorePhase::Finished);
    lemma_store_finished_is_last(records, images, t, n + 2);
    assert forall|k: int| 0 <= k < n implies (#[trigger] t[k]).1 == StoreAction::WriteImage(k as usize)
        && t[k].2 == StoreEvent::Succeeded && images[k].bytes@.len() > 0
        && valid_image_file_name(records[k].image_file@) by {
        if k == n - 1 {
        } else {
            lemma_store_run_writes(records, images, t, n - 1);
        }
    }
}

/// A reload removes a directory entry exactly when it is a generated image
/// name that no record refers to: every name it removes is such an entry,
/// and every such entry is removed.
pub proof fn law_stale_names_unreferenced(records: Seq<HistoryRecord>, entries: Seq<Seq<char>>)
    ensures
        forall|k: int|
            #![trigger stale_names(entries, image_files_of(records))[k]]
            0 <= k < stale_names(entries, image_files_of(records)).len() ==> {
                let n = stale_names(entries, image_files_of(records))[k];
                &&& valid_image_file_name(n)
                &&& entries.contains(n)
                &&& forall|j: int| 0 <= j < records.len() ==> (#[trigger] records[j]).image_file@ != n
            },
        forall|m: int|
            #![trigger entries[m]]
            0 <= m < entries.len() && valid_image_file_name(entries[m]) && (forall|j: int|
                0 <= j < records.len() ==> (#[trigger] records[j]).image_file@ != entries[m])
                ==> stale_names(entries, image_files_of(records)).contains(entries[m]),
    decreases entries.len(),
{
    let files = image_files_of(records);
    if entries.len() > 0 {
        let front = entries.drop_last();
        let e = entries.last();
        law_stale_names_unreferenced(records, front);
        let rest = stale_names(front, files);
        let st = stale_names(entries, files);
        assert(forall|j: int| 0 <= j < records.len() ==> files[j] == (#[trigger] records[j]).image_file@);
        assert forall|k: int| #![trigger st[k]] 0 <= k < st.len() implies {
            let n = st[k];
            &&& valid_image_file_name(n)
            &&& entries.contains(n)
            &&& forall|j: int| 0 <= j < records.len() ==> (#[trigger] records[j]).image_file@ != n
        } by {
            if k < rest.len() {
                assert(st[k] == rest[k]);
                let w = choose|w: int| 0 <= w < front.len() && front[w] == rest[k];
                assert(entries[w] == front[w]);
            } else {
                assert(st[k] == e);
                assert(!files.contains(e));
                assert(entries[entries.len() - 1] == e);
                assert forall|j: int| 0 <= j < records.len() implies (#[trigger] records[j]).image_file@ != e by {
                    if records[j].image_file@ == e {
                        assert(files[j] == e);
                    }
                }
            }
        }
        assert forall|m: int|
            0 <= m < entries.len() && valid_image_file_name(entries[m]) && (forall|j: int|
                0 <= j < records.len() ==> (#[trigger] records[j]).image_file@ != entries[m])
            implies st.contains(entries[m]) by {
            if m < front.len() {
                assert(front[m] == entries[m]);
                let w = choose|w: int| 0 <= w < rest.len() && rest[w] == front[m];
                assert(st[w] == rest[w]);
            } else {
                assert(entries[m] == e);
                if files.contains(e) {
                    let j = choose|j: int| 0 <= j < files.len() && files[j] == e;
                    assert(records[j].image_file@ == files[j]);
                }
                assert(st[st.len() - 1] == e);
            }
        }
    }
}

/// Every image of a response, base64 or downloaded, is stored under the
/// type its bytes show, whatever format was asked for: PNG bytes as `png`,
/// JPEG bytes as `jpg` and RIFF/WEBP bytes as `webp`; only bytes of none of
/// these types take the requested format. The bytes are those decoded or
/// downloaded.
pub proof fn law_item_image_by_content(
    source: ImageSource,
    fetched: Result<Seq<u8>, Seq<char>>,
    image_format: Seq<char>,
)
    ensures
        item_image(source, fetched, image_format) matches Ok((b, ext)) ==> {
            &&& source matches ImageSource::Encoded(e) ==> base64_decoded(e@) == Some(b)
            &&& source is Download ==> fetched == Ok::<Seq<u8>, Seq<char>>(b)
            &&& b.len() >= 8 && b[0] == 0x89u8 && b[1] == 0x50u8 && b[2] == 0x4eu8 && b[3] == 0x47u8
                && b[4] == 0x0du8 && b[5] == 0x0au8 && b[6] == 0x1au8 && b[7] == 0x0au8 ==> ext
                == "png"@
            &&& b.len() >= 3 && b[0] == 0xffu8 && b[1] == 0xd8u8 && b[2] == 0xffu8 ==> ext == "jpg"@
            &&& b.len() >= 12 && b[0] == 0x52u8 && b[1] == 0x49u8 && b[2] == 0x46u8 && b[3] == 0x46u8
                && b[8] == 0x57u8 && b[9] == 0x45u8 && b[10] == 0x42u8 && b[11] == 0x50u8 ==> ext
                == "webp"@
            &&& !(b.len() >= 3 && (b[0] == 0x89u8 || b[0] == 0xffu8 || b[0] == 0x52u8)) ==> ext
                == normalized_extension(image_format)
        },
        source matches ImageSource::Encoded(e) ==> (item_image(source, fetched, image_format) is Ok
            <==> (base64_decoded(e@) matches Some(b) && b.len() > 0)),
        source is Download ==> (item_image(source, fetched, image_format) is Ok <==> (
        fetched matches Ok(b) && b.len() > 0)),
        source is Missing ==> item_image(source, fetched, image_format) is Err,
{
    if let Ok((b, ext)) = item_image(source, fetched, image_format) {
        let png = seq![0x89u8, 0x50u8, 0x4eu8, 0x47u8, 0x0du8, 0x0au8, 0x1au8, 0x0au8];
        if b.len() >= 8 && b[0] == 0x89u8 && b[1] == 0x50u8 && b[2] == 0x4eu8 && b[3] == 0x47u8
            && b[4] == 0x0du8 && b[5] == 0x0au8 && b[6] == 0x1au8 && b[7] == 0x0au8 {
            assert(b.subrange(0, 8) =~= png);
        }
        if b.len() >= 3 && b[0] == 0xffu8 && b[1] == 0xd8u8 && b[2] == 0xffu8 {
            assert(b.subrange(0, 3) =~= seq![0xffu8, 0xd8u8, 0xffu8]);
        }
        if b.len() >= 12 && b[0] == 0x52u8 && b[1] == 0x49u8 && b[2] == 0x46u8 && b[3] == 0x46u8
            && b[8] == 0x57u8 && b[9] == 0x45u8 && b[10] == 0x42u8 && b[11] == 0x50u8 {
            assert(b.subrange(0, 4) =~= seq![0x52u8, 0x49u8, 0x46u8, 0x46u8]);
            assert(b.subrange(8, 12) =~= seq![0x57u8, 0x45u8, 0x42u8, 0x50u8]);
        }
        if b.len() >= 8 && b.subrange(0, 8) == png {
            assert(b[0] == b.subrange(0, 8)[0]);
        }
        if b.len() >= 3 && b.subrange(0, 3) == seq![0xffu8, 0xd8u8, 0xffu8] {
            assert(b[0] == b.subrange(0, 3)[0]);
        }
        if b.len() >= 4 && b.subrange(0, 4) == seq![0x52u8, 0x49u8, 0x46u8, 0x46u8] {
            assert(b[0] == b.subrange(0, 4)[0]);
        }
    }
}

/// The size asked for keeps the width and height of the resolution chosen:
/// whatever surrounds it, a resolution written `W × H` or `WxH` for one of
/// the portrait and landscape sizes gives `WxH`, and any other resolution
/// gives the square size.
pub proof fn law_size_keeps_orientation(resolution: Seq<char>)
    ensures
        crate::text::trim(resolution) == "1024 × 1792"@ || crate::text::trim(resolution) == "1024x1792"@
            ==> size_for(resolution) == "1024x1792"@,
        crate::text::trim(resolution) == "1792 × 1024"@ || crate::text::trim(resolution) == "1792x1024"@
            ==> size_for(resolution) == "1792x1024"@,
        !(crate::text::trim(resolution) == "1024 × 1792"@ || crate::text::trim(resolution)
            == "1024x1792"@ || crate::text::trim(resolution) == "1792 × 1024"@ || crate::text::trim(
            resolution,
        ) == "1792x1024"@) ==> size_for(resolution) == "1024x1024"@,
{
    reveal_strlit("1024 × 1792");
    reveal_strlit("1024x1792");
    reveal_strlit("1792 × 1024");
    reveal_strlit("1792x1024");
    reveal_strlit("1024x1024");
    assert("1792 × 1024"@[1] != "1024 × 1792"@[1]);
    assert("1792 × 1024"@[1] != "1024x1792"@[1]);
    assert("1792x1024"@[1] != "1024 × 1792"@[1]);
    assert("1792x1024"@[1] != "1024x1792"@[1]);
}

/// Saving a provider keeps every field the request gives. A name not yet
/// used appends a provider that carries the request's name and base URL,
/// and its key, model and model list when given (empty when not); this is
/// also the provider answered. An existing provider gets the request's base
/// URL, and its key, model and model list where the request gives them,
/// keeping its own otherwise. No other provider and not the current index
/// changes.
pub proof fn law_save_provider_keeps_request(s: ProviderStateView, req: SaveProviderRequest)
    ensures
        after_save(s, req).current_index == s.current_index,
        position_named(s.providers, req.name@) is None ==> {
            let a = after_save(s, req);
            let p = saved_new(req);
            &&& a.providers.len() == s.providers.len() + 1
            &&& a.providers.subrange(0, s.providers.len() as int) == s.providers
            &&& a.providers.last() == p
            &&& p.name == req.name@
            &&& p.base_url == req.base_url@
            &&& (req.api_key matches Some(k) ==> p.api_key == k@)
            &&& (req.api_key is None ==> p.api_key.len() == 0)
            &&& (req.model matches Some(m) ==> p.model == m@)
            &&& (req.model is None ==> p.model.len() == 0)
            &&& (req.models matches Some(ms) ==> p.models.len() == ms@.len() && forall|j: int|
                0 <= j < ms@.len() ==> p.models[j] == (#[trigger] ms@[j])@)
            &&& (req.models is None ==> p.models.len() == 0)
        },
        position_named(s.providers, req.name@) matches Some(i) ==> {
            let a = after_save(s, req);
            let old = s.providers[i];
            let p = saved_over(old, req);
            &&& a.providers.len() == s.providers.len()
            &&& a.providers[i] == p
            &&& forall|j: int| 0 <= j < s.providers.len() && j != i ==> a.providers[j]
                == #[trigger] s.providers[j]
            &&& p.name == old.name
            &&& p.base_url == req.base_url@
            &&& (req.api_key matches Some(k) ==> p.api_key == k@)
            &&& (req.api_key is None ==> p.api_key == old.api_key)
            &&& (req.model matches Some(m) ==> p.model == m@)
            &&& (req.model is None ==> p.model == old.model)
            &&& (req.models matches Some(ms) ==> p.models.len() == ms@.len() && forall|j: int|
                0 <= j < ms@.len() ==> p.models[j] == (#[trigger] ms@[j])@)
            &&& (req.models is None ==> p.models == old.models)
        },
{
    match position_named(s.providers, req.name@) {
        Some(i) => {
            crate::text::lemma_first_match_some(crate::storage::names_of(s.providers), req.name@);
        },
        None => {
            assert(after_save(s, req).providers.subrange(0, s.providers.len() as int)
                =~= s.providers);
        },
    }
}

/// Deleting a provider other than the current one keeps the same provider
/// current; deleting the current one makes the provider after it current,
/// or the new last one when it was last. The settings stay well-formed.
pub proof fn law_delete_keeps_current(s: ProviderStateView, i: int)
    requires
        well_formed(s),
        s.providers.len() > 1,
        0 <= i < s.providers.len(),
    ensures
        well_formed(after_delete(s, i)),
        after_delete(s, i).providers == s.providers.remove(i),
        i != s.current_index ==> after_delete(s, i).providers[after_delete(s, i).current_index as int]
            == s.providers[s.current_index as int],
        i == s.current_index && i < s.providers.len() - 1 ==> after_delete(s, i).providers[after_delete(
            s,
            i,
        ).current_index as int] == s.providers[i + 1],
        i == s.current_index && i == s.providers.len() - 1 ==> after_delete(s, i).current_index == i
            - 1,
{
}

/// The shape of a store run up to an unfinished step `k`: images `0..n`
/// are written in order, each write before `k` having succeeded, then the
/// history is read, then written.
proof fn lemma_store_run_shape(
    records: Seq<HistoryRecord>,
    images: Seq<ImagePayload>,
    t: Seq<(StorePhase, StoreAction, StoreEvent)>,
    k: int,
)
    requires
        0 < records.len() <= usize::MAX,
        records.len() == images.len(),
        is_store_run(records, images, t),
        0 <= k < t.len(),
        t[k].0 != StorePhase::Finished,
    ensures
        (k < records.len() && t[k].0 == StorePhase::WritingImage(k as usize) && t[k].1
            == StoreAction::WriteImage(k as usize)) || (k == records.len() && t[k].0
            == StorePhase::ReadingHistory && t[k].1 == StoreAction::ReadHistory) || (k
            == records.len() + 1 && t[k].0 == StorePhase::WritingHistory),
        forall|j: int| 0 <= j < k && j < records.len() ==> (#[trigger] t[j]).1 == StoreAction::WriteImage(
            j as usize,
        ) && t[j].2 == StoreEvent::Succeeded,
    decreases k,
{
    if k == 0 {
        lemma_store_run_start(records, images, t);
    } else {
        lemma_store_run_step(records, images, t, k - 1);
        lemma_store_run_shape(records, images, t, k - 1);
        let e = t[k - 1].2;
        if k - 1 < records.len() {
            assert(e == StoreEvent::Succeeded);
            if k < records.len() {
                assert(store_begins_image(records, images, k, (t[k].0, t[k].1)));
            }
        }
    }
}

/// A store run that fails removing written images removes exactly the
/// images whose writes succeeded: images `0..count` were all written, and
/// no image from `count` on was.
pub proof fn law_failed_store_run_removes_what_it_wrote(
    records: Seq<HistoryRecord>,
    images: Seq<ImagePayload>,
    t: Seq<(StorePhase, StoreAction, StoreEvent)>,
)
    requires
        0 < records.len() <= usize::MAX,
        records.len() == images.len(),
        is_store_run(records, images, t),
        t.last().1 is RemoveImages,
    ensures
        t.last().1 matches StoreAction::RemoveImages { count, error } && count <= records.len() && (
        forall|j: int| 0 <= j < count ==> (#[trigger] t[j]).1 == StoreAction::WriteImage(j as usize)
            && t[j].2 == StoreEvent::Succeeded) && (forall|k: int|
            0 <= k < t.len() - 1 && t[k].2 == StoreEvent::Succeeded ==> !((#[trigger] t[k]).1 matches StoreAction::WriteImage(
                j,
            ) && j >= count)),
{
    lemma_store_run_start(records, images, t);
    let n = records.len() as int;
    let l = t.len() - 1;
    assert(t.last() == t[l]);
    assert forall|k: int| 0 <= k < l implies t[k].0 != StorePhase::Finished by {
        lemma_store_run_step(records, images, t, k);
    }
    if l == 0 {
        lemma_store_run_start(records, images, t);
    } else {
        lemma_store_run_step(records, images, t, l - 1);
        lemma_store_run_shape(records, images, t, l - 1);
        let e = t[l - 1].2;
        if l - 1 < n && e == StoreEvent::Succeeded && l < n {
            assert(store_begins_image(records, images, l, (t[l].0, t[l].1)));
        }
    }
    let count = t[l].1->count;
    assert forall|k: int|
        0 <= k < t.len() - 1 && t[k].2 == StoreEvent::Succeeded implies !((#[trigger] t[k]).1 matches StoreAction::WriteImage(
            j,
        ) && j >= count) by {
        lemma_store_run_shape(records, images, t, k);
    }
}

} // verus!
