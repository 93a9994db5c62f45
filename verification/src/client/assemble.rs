//! Turning a server's per-item replies into per-tag results.
//!
//! A read or write first adds every tag to a private group; the server
//! answers with one status per tag.  Only the accepted tags go on to the
//! read or write call, whose replies come back in the order of the accepted
//! tags.  These functions decide what each tag's result is.

use vstd::prelude::*;
use vstd::string::*;
use crate::client::types::{ItemProperty, OpcError, TagValue, WriteResult, tag_value_view, write_result_view};
use crate::hresult::succeeded;

verus! {

/// What the server answered for one item: its HRESULT and the text that
/// describes that code.
pub struct ItemStatus {
    pub code: i32,
    pub hint: String,
}

/// What the server answered for one read item: its status and the item's
/// state rendered as text (value, type name, quality, timestamp).
pub struct ItemRead {
    pub status: ItemStatus,
    pub value: String,
    pub data_type: String,
    pub quality: String,
    pub timestamp: String,
}

/// The positions, in order, whose status is a success code.
pub open spec fn accepted_positions(replies: Seq<ItemStatus>) -> Seq<int>
    decreases replies.len(),
{
    if replies.len() == 0 {
        Seq::empty()
    } else {
        let prev = accepted_positions(replies.drop_last());
        if succeeded(replies.last().code) {
            prev.push(replies.len() - 1)
        } else {
            prev
        }
    }
}

/// How many positions before `i` were accepted: the index of position
/// `i`'s reply among the replies to the accepted items.
pub open spec fn accepted_rank(replies: Seq<ItemStatus>, i: int) -> int {
    accepted_positions(replies.take(i)).len() as int
}

/// The result of reading tag `tag`, given its add status and (if it was
/// accepted) its read reply.
pub open spec fn read_entry(tag: Seq<char>, add: ItemStatus, read: ItemRead) -> (
    Seq<char>,
    Seq<char>,
    Seq<char>,
    Seq<char>,
    Seq<char>,
) {
    if !succeeded(add.code) {
        (tag, "Error"@, Seq::empty(), "Bad — "@ + add.hint@, Seq::empty())
    } else if succeeded(read.status.code) {
        (tag, read.value@, read.data_type@, read.quality@, read.timestamp@)
    } else {
        (tag, "Error"@, Seq::empty(), "Bad — "@ + read.status.hint@, read.timestamp@)
    }
}

/// The result of writing tag `tag`, given its add status and (if it was
/// accepted) its write reply.
pub open spec fn write_entry(tag: Seq<char>, add: ItemStatus, write: ItemStatus) -> (
    Seq<char>,
    bool,
    Option<Seq<char>>,
) {
    if !succeeded(add.code) {
        (tag, false, Some("Failed to add tag: "@ + add.hint@))
    } else if succeeded(write.code) {
        (tag, true, None)
    } else {
        (tag, false, Some(write.hint@))
    }
}

/// `err` is an `Internal` error whose message is `msg`.
pub open spec fn is_internal(err: OpcError, msg: Seq<char>) -> bool {
    err matches OpcError::Internal(m) && m@ == msg
}

proof fn lemma_accepted_step(replies: Seq<ItemStatus>, i: int)
    requires
        0 <= i < replies.len(),
    ensures
        accepted_positions(replies.take(i + 1)) == (if succeeded(replies[i].code) {
            accepted_positions(replies.take(i)).push(i)
        } else {
            accepted_positions(replies.take(i))
        }),
{
    assert(replies.take(i + 1).drop_last() =~= replies.take(i));
}

/// A reply of `results_len` item results and `errors_len` item statuses
/// matches a request for `expected` items only when both counts are
/// `expected`.
pub fn check_reply_sizes(expected: usize, results_len: usize, errors_len: usize) -> (r: Result<
    (),
    OpcError,
>)
    ensures
        r is Ok <==> (results_len == expected && errors_len == expected),
        r matches Err(e) ==> is_internal(e, "OPC server returned mismatched result array sizes"@),
{
    if results_len != expected || errors_len != expected {
        Err(OpcError::Internal(String::from_str("OPC server returned mismatched result array sizes")))
    } else {
        Ok(())
    }
}

/// The positions whose add status is a success code, in order: the items
/// that go on to the read or write call.
pub fn accepted_indices(replies: &Vec<ItemStatus>) -> (r: Vec<usize>)
    ensures
        r@.map_values(|p: usize| p as int) == accepted_positions(replies@),
{
    let mut r: Vec<usize> = Vec::new();
    let mut i: usize = 0;
    while i < replies.len()
        invariant
            i <= replies.len(),
            r@.map_values(|p: usize| p as int) == accepted_positions(replies@.take(i as int)),
        decreases replies.len() - i,
    {
        proof {
            lemma_accepted_step(replies@, i as int);
        }
        if replies[i].code >= 0 {
            r.push(i);
        }
        i = i + 1;
        assert(r@.map_values(|p: usize| p as int) =~= accepted_positions(replies@.take(i as int)));
    }
    assert(replies@.take(i as int) =~= replies@);
    r
}

/// The tag ids at the accepted positions, in order.
pub fn accepted_tag_ids(tag_ids: &Vec<String>, replies: &Vec<ItemStatus>) -> (r: Vec<String>)
    requires
        tag_ids.len() == replies.len(),
    ensures
        r@.len() == accepted_positions(replies@).len(),
        forall|k: int|
            0 <= k < r@.len() ==> #[trigger] r@[k]@ == tag_ids@[accepted_positions(replies@)[k]]@,
{
    let mut r: Vec<String> = Vec::new();
    let mut i: usize = 0;
    while i < replies.len()
        invariant
            i <= replies.len(),
            tag_ids.len() == replies.len(),
            r@.len() == accepted_positions(replies@.take(i as int)).len(),
            forall|k: int|
                0 <= k < r@.len() ==> #[trigger] r@[k]@ == tag_ids@[accepted_positions(
                    replies@.take(i as int),
                )[k]]@,
        decreases replies.len() - i,
    {
        proof {
            lemma_accepted_step(replies@, i as int);
        }
        if replies[i].code >= 0 {
            r.push(tag_ids[i].clone());
        }
        i = i + 1;
    }
    assert(replies@.take(i as int) =~= replies@);
    r
}

/// `err` is the COM error `code` with message `msg`.
pub open spec fn is_com_error(err: OpcError, code: i32, msg: Seq<char>) -> bool {
    err matches OpcError::Com { code: c, message } && c == code && message@ == msg
}

/// The per-tag results of a read of `tag_ids`.  When there are tags and
/// the server refused to add every one of them, the read fails with the
/// first tag's status and reason.  Otherwise each tag gets an entry: a
/// refused tag reads `"Error"` with quality `"Bad — <reason>"`; an accepted
/// tag takes its read reply, which is either its rendered state or, when
/// the read of that item failed, `"Error"` with quality `"Bad — <reason>"`.
pub fn read_results(tag_ids: &Vec<String>, adds: &Vec<ItemStatus>, reads: &Vec<ItemRead>) -> (r: Result<
    Vec<TagValue>,
    OpcError,
>)
    requires
        adds.len() == tag_ids.len(),
        reads.len() == accepted_positions(adds@).len(),
    ensures
        tag_ids.len() > 0 && accepted_positions(adds@).len() == 0 ==> (r matches Err(e) && is_com_error(
            e,
            adds@[0].code,
            "No tag could be added to the OPC group: "@ + adds@[0].hint@,
        )),
        !(tag_ids.len() > 0 && accepted_positions(adds@).len() == 0) ==> (r matches Ok(v) && v@.len()
            == tag_ids.len() && forall|i: int|
            0 <= i < v@.len() ==> tag_value_view(#[trigger] v@[i]) == read_entry(
                tag_ids@[i]@,
                adds@[i],
                reads@[accepted_rank(adds@, i)],
            )),
{
    if tag_ids.len() > 0 && reads.len() == 0 {
        let mut msg = String::from_str("No tag could be added to the OPC group: ");
        msg.append(adds[0].hint.as_str());
        return Err(OpcError::Com { code: adds[0].code, message: msg });
    }
    Ok(read_entries(tag_ids, adds, reads))
}

/// One entry per tag, as [`read_results`] gives them.
fn read_entries(tag_ids: &Vec<String>, adds: &Vec<ItemStatus>, reads: &Vec<ItemRead>) -> (r:
    Vec<TagValue>)
    requires
        adds.len() == tag_ids.len(),
        reads.len() == accepted_positions(adds@).len(),
    ensures
        r@.len() == tag_ids.len(),
        forall|i: int|
            0 <= i < r@.len() ==> tag_value_view(#[trigger] r@[i]) == read_entry(
                tag_ids@[i]@,
                adds@[i],
                reads@[accepted_rank(adds@, i)],
            ),
{
    let mut r: Vec<TagValue> = Vec::new();
    let mut i: usize = 0;
    let mut k: usize = 0;
    while i < tag_ids.len()
        invariant
            i <= tag_ids.len(),
            adds.len() == tag_ids.len(),
            reads.len() == accepted_positions(adds@).len(),
            k == accepted_positions(adds@.take(i as int)).len(),
            r@.len() == i,
            forall|j: int|
                0 <= j < i ==> tag_value_view(#[trigger] r@[j]) == read_entry(
                    tag_ids@[j]@,
                    adds@[j],
                    reads@[accepted_rank(adds@, j)],
                ),
        decreases tag_ids.len() - i,
    {
        proof {
            lemma_accepted_step(adds@, i as int);
            lemma_accepted_prefix_len(adds@, i as int + 1);
        }
        let add = &adds[i];
        let tv = if add.code < 0 {
            let mut quality = String::from_str("Bad — ");
            quality.append(add.hint.as_str());
            TagValue {
                tag_id: tag_ids[i].clone(),
                value: String::from_str("Error"),
                data_type: String::new(),
                quality,
                timestamp: String::new(),
            }
        } else {
            let rd = &reads[k];
            k = k + 1;
            if rd.status.code >= 0 {
                TagValue {
                    tag_id: tag_ids[i].clone(),
                    value: rd.value.clone(),
                    data_type: rd.data_type.clone(),
                    quality: rd.quality.clone(),
                    timestamp: rd.timestamp.clone(),
                }
            } else {
                let mut quality = String::from_str("Bad — ");
                quality.append(rd.status.hint.as_str());
                TagValue {
                    tag_id: tag_ids[i].clone(),
                    value: String::from_str("Error"),
                    data_type: String::new(),
                    quality,
                    timestamp: rd.timestamp.clone(),
                }
            }
        };
        r.push(tv);
        i = i + 1;
    }
    r
}

/// Tag `i` of a `ReadMaxAge` reply, from the server's parallel arrays (any
/// of which may fall short): a success status gives the rendered value and
/// its type name (`"Error"` and no type where the value is missing) and
/// the quality text (`"Bad"` where missing); any other status gives
/// `"Error"`, no type and `"Bad"`.  The id is the `i`-th requested id and
/// the timestamp the `i`-th rendered one, each empty where missing.
pub open spec fn max_age_entry(
    i: int,
    tag_ids: Seq<String>,
    values: Seq<(String, String)>,
    qualities: Seq<String>,
    timestamps: Seq<String>,
    codes: Seq<i32>,
) -> (Seq<char>, Seq<char>, Seq<char>, Seq<char>, Seq<char>) {
    let tag = if i < tag_ids.len() { tag_ids[i]@ } else { Seq::empty() };
    let timestamp = if i < timestamps.len() { timestamps[i]@ } else { Seq::empty() };
    if i < codes.len() && succeeded(codes[i]) {
        let value = if i < values.len() { values[i].0@ } else { "Error"@ };
        let data_type = if i < values.len() { values[i].1@ } else { Seq::empty() };
        let quality = if i < qualities.len() { qualities[i]@ } else { "Bad"@ };
        (tag, value, data_type, quality, timestamp)
    } else {
        (tag, "Error"@, Seq::empty(), "Bad"@, timestamp)
    }
}

/// The results of a `ReadMaxAge` of `count` items.
pub fn max_age_values(
    tag_ids: &Vec<String>,
    count: usize,
    values: &Vec<(String, String)>,
    qualities: &Vec<String>,
    timestamps: &Vec<String>,
    codes: &Vec<i32>,
) -> (r: Vec<TagValue>)
    ensures
        r@.len() == count,
        forall|i: int|
            0 <= i < count ==> tag_value_view(#[trigger] r@[i]) == max_age_entry(
                i,
                tag_ids@,
                values@,
                qualities@,
                timestamps@,
                codes@,
            ),
{
    let mut r: Vec<TagValue> = Vec::new();
    let mut i: usize = 0;
    while i < count
        invariant
            i <= count,
            r@.len() == i,
            forall|j: int|
                0 <= j < i ==> tag_value_view(#[trigger] r@[j]) == max_age_entry(
                    j,
                    tag_ids@,
                    values@,
                    qualities@,
                    timestamps@,
                    codes@,
                ),
        decreases count - i,
    {
        let tag_id = if i < tag_ids.len() { tag_ids[i].clone() } else { String::new() };
        let timestamp = if i < timestamps.len() { timestamps[i].clone() } else { String::new() };
        let ok = i < codes.len() && codes[i] >= 0;
        let (value, data_type, quality) = if ok {
            let (value, data_type) = if i < values.len() {
                (values[i].0.clone(), values[i].1.clone())
            } else {
                (String::from_str("Error"), String::new())
            };
            let quality = if i < qualities.len() { qualities[i].clone() } else { String::from_str("Bad") };
            (value, data_type, quality)
        } else {
            (String::from_str("Error"), String::new(), String::from_str("Bad"))
        };
        r.push(TagValue { tag_id, value, data_type, quality, timestamp });
        i = i + 1;
    }
    r
}

/// The per-tag results of a multi-tag write.  A tag the server refused to
/// add fails with `"Failed to add tag: <reason>"`; an accepted tag takes
/// its write reply.  When some tag was accepted but the write replies do
/// not number the accepted tags, the whole write fails.
pub fn write_results(tag_ids: &Vec<String>, adds: &Vec<ItemStatus>, writes: &Vec<ItemStatus>) -> (r:
    Result<Vec<WriteResult>, OpcError>)
    requires
        adds.len() == tag_ids.len(),
    ensures
        r is Err <==> (accepted_positions(adds@).len() > 0 && writes.len() != accepted_positions(
            adds@,
        ).len()),
        r matches Err(e) ==> is_internal(e, "OPC server returned mismatched write error array size"@),
        r matches Ok(v) ==> v@.len() == tag_ids.len() && forall|i: int|
            0 <= i < v@.len() ==> write_result_view(#[trigger] v@[i]) == write_entry(
                tag_ids@[i]@,
                adds@[i],
                writes@[accepted_rank(adds@, i)],
            ),
{
    let accepted = accepted_indices(adds);
    if accepted.len() > 0 && writes.len() != accepted.len() {
        return Err(
            OpcError::Internal(String::from_str("OPC server returned mismatched write error array size")),
        );
    }
    assert(accepted@.len() == accepted_positions(adds@).len()) by {
        assert(accepted@.map_values(|p: usize| p as int).len() == accepted@.len());
    }
    let mut r: Vec<WriteResult> = Vec::new();
    let mut i: usize = 0;
    let mut k: usize = 0;
    while i < tag_ids.len()
        invariant
            i <= tag_ids.len(),
            adds.len() == tag_ids.len(),
            accepted_positions(adds@).len() == 0 || writes.len() == accepted_positions(adds@).len(),
            k == accepted_positions(adds@.take(i as int)).len(),
            r@.len() == i,
            forall|j: int|
                0 <= j < i ==> write_result_view(#[trigger] r@[j]) == write_entry(
                    tag_ids@[j]@,
                    adds@[j],
                    writes@[accepted_rank(adds@, j)],
                ),
        decreases tag_ids.len() - i,
    {
        proof {
            lemma_accepted_step(adds@, i as int);
            lemma_accepted_prefix_len(adds@, i as int + 1);
        }
        let add = &adds[i];
        let wr = if add.code < 0 {
            let mut msg = String::from_str("Failed to add tag: ");
            msg.append(add.hint.as_str());
            WriteResult { tag_id: tag_ids[i].clone(), success: false, error: Some(msg) }
        } else {
            let w = &writes[k];
            k = k + 1;
            if w.code >= 0 {
                WriteResult { tag_id: tag_ids[i].clone(), success: true, error: None }
            } else {
                WriteResult { tag_id: tag_ids[i].clone(), success: false, error: Some(w.hint.clone()) }
            }
        };
        r.push(wr);
        i = i + 1;
    }
    Ok(r)
}

/// The single-tag write's check of its add reply: no item result or no
/// item status is an internal error; a refused tag fails the write with
/// its status and `"Failed to add tag: <reason>"`; an accepted tag goes on
/// to the write (`Ok`).
pub fn single_add_outcome(results_len: usize, errors: &Vec<ItemStatus>) -> (r: Result<
    (),
    OpcError,
>)
    ensures
        results_len == 0 ==> (r matches Err(e) && is_internal(
            e,
            "Server returned empty item results"@,
        )),
        results_len > 0 && errors.len() == 0 ==> (r matches Err(e) && is_internal(
            e,
            "Server returned empty item errors"@,
        )),
        results_len > 0 && errors.len() > 0 && succeeded(errors@[0].code) ==> r is Ok,
        results_len > 0 && errors.len() > 0 && !succeeded(errors@[0].code) ==> (r matches Err(e)
            && is_com_error(e, errors@[0].code, "Failed to add tag: "@ + errors@[0].hint@)),
{
    if results_len == 0 {
        return Err(OpcError::Internal(String::from_str("Server returned empty item results")));
    }
    if errors.len() == 0 {
        return Err(OpcError::Internal(String::from_str("Server returned empty item errors")));
    }
    let first = &errors[0];
    if first.code < 0 {
        let mut msg = String::from_str("Failed to add tag: ");
        msg.append(first.hint.as_str());
        Err(OpcError::Com { code: first.code, message: msg })
    } else {
        Ok(())
    }
}

/// The single-tag write's result from its write reply: no status is an
/// internal error; otherwise the first status decides success.
pub fn single_write_outcome(tag_id: &str, write_errors: &Vec<ItemStatus>) -> (r: Result<
    WriteResult,
    OpcError,
>)
    ensures
        write_errors.len() == 0 ==> (r matches Err(e) && is_internal(
            e,
            "Server returned empty write errors"@,
        )),
        write_errors.len() > 0 ==> (r matches Ok(w) && write_result_view(w) == (if succeeded(
            write_errors@[0].code,
        ) {
            (tag_id@, true, None::<Seq<char>>)
        } else {
            (tag_id@, false, Some(write_errors@[0].hint@))
        })),
{
    if write_errors.len() == 0 {
        return Err(OpcError::Internal(String::from_str("Server returned empty write errors")));
    }
    let w = &write_errors[0];
    if w.code >= 0 {
        Ok(WriteResult { tag_id: tag_id.to_owned(), success: true, error: None })
    } else {
        Ok(WriteResult { tag_id: tag_id.to_owned(), success: false, error: Some(w.hint.clone()) })
    }
}

/// One item of a data-change callback: the client handle the item was added
/// with (its position in the subscription's tag list), its status, and its
/// state rendered as text.
pub struct ChangedItem {
    pub client_handle: u32,
    pub status: i32,
    pub value: String,
    pub data_type: String,
    pub quality: String,
    pub timestamp: String,
}

/// The tag values a data-change callback forwards: one per item whose status
/// is a success code and whose client handle names a subscribed tag, in
/// callback order.
pub open spec fn forwarded_values(tag_ids: Seq<Seq<char>>, items: Seq<ChangedItem>) -> Seq<
    (Seq<char>, Seq<char>, Seq<char>, Seq<char>, Seq<char>),
>
    decreases items.len(),
{
    if items.len() == 0 {
        Seq::empty()
    } else {
        let prev = forwarded_values(tag_ids, items.drop_last());
        let it = items.last();
        if succeeded(it.status) && (it.client_handle as int) < tag_ids.len() {
            prev.push(
                (tag_ids[it.client_handle as int], it.value@, it.data_type@, it.quality@, it.timestamp@),
            )
        } else {
            prev
        }
    }
}

/// The tag values a data-change (or read-complete) callback forwards to the
/// subscriber.
pub fn forward_data_change(tag_ids: &Vec<String>, items: &Vec<ChangedItem>) -> (r: Vec<TagValue>)
    ensures
        r@.map_values(|t: TagValue| tag_value_view(t)) == forwarded_values(tag_ids.deep_view(), items@),
{
    let mut r: Vec<TagValue> = Vec::new();
    let mut i: usize = 0;
    while i < items.len()
        invariant
            i <= items@.len(),
            r@.map_values(|t: TagValue| tag_value_view(t)) == forwarded_values(
                tag_ids.deep_view(),
                items@.take(i as int),
            ),
        decreases items.len() - i,
    {
        let it = &items[i];
        let ghost before = r@;
        proof {
            assert(items@.take(i + 1).drop_last() =~= items@.take(i as int));
        }
        if it.status >= 0 && (it.client_handle as usize) < tag_ids.len() {
            let h = it.client_handle as usize;
            assert(tag_ids.deep_view()[h as int] == tag_ids@[h as int]@);
            r.push(
                TagValue {
                    tag_id: tag_ids[h].clone(),
                    value: it.value.clone(),
                    data_type: it.data_type.clone(),
                    quality: it.quality.clone(),
                    timestamp: it.timestamp.clone(),
                },
            );
            assert(r@.map_values(|t: TagValue| tag_value_view(t)) =~= before.map_values(
                |t: TagValue| tag_value_view(t),
            ).push(tag_value_view(r@.last())));
        }
        i = i + 1;
    }
    assert(items@.take(i as int) =~= items@);
    r
}

/// The properties of an item from the server's parallel replies: per
/// property id, its description (empty where missing), its type (0 where
/// missing) and, when the value's status is a success code, its rendered
/// value; otherwise `"Error: <reason>"` (the reason of a missing status is
/// `missing_hint`, the text of code 0).
pub open spec fn property_entry(
    id: u32,
    i: int,
    descriptions: Seq<Option<String>>,
    data_types: Seq<u16>,
    values: Seq<String>,
    statuses: Seq<ItemStatus>,
    missing_hint: Seq<char>,
) -> (u32, Seq<char>, u16, Seq<char>) {
    let description = if i < descriptions.len() && descriptions[i] is Some {
        descriptions[i]->0@
    } else {
        Seq::empty()
    };
    let data_type = if i < data_types.len() {
        data_types[i]
    } else {
        0
    };
    let value = if i < statuses.len() && succeeded(statuses[i].code) {
        if i < values.len() {
            values[i]@
        } else {
            Seq::empty()
        }
    } else {
        "Error: "@ + (if i < statuses.len() {
            statuses[i].hint@
        } else {
            missing_hint
        })
    };
    (id, description, data_type, value)
}

/// A property as a value.
pub open spec fn property_view(p: ItemProperty) -> (u32, Seq<char>, u16, Seq<char>) {
    (p.id, p.description@, p.data_type, p.value@)
}

/// The properties of an item, one per available property id.
pub fn item_properties(
    ids: &Vec<u32>,
    descriptions: &Vec<Option<String>>,
    data_types: &Vec<u16>,
    values: &Vec<String>,
    statuses: &Vec<ItemStatus>,
    missing_hint: &str,
) -> (r: Vec<ItemProperty>)
    ensures
        r@.len() == ids@.len(),
        forall|i: int|
            0 <= i < r@.len() ==> property_view(#[trigger] r@[i]) == property_entry(
                ids@[i],
                i,
                descriptions@,
                data_types@,
                values@,
                statuses@,
                missing_hint@,
            ),
{
    let mut r: Vec<ItemProperty> = Vec::new();
    let mut i: usize = 0;
    while i < ids.len()
        invariant
            i <= ids@.len(),
            r@.len() == i,
            forall|j: int|
                0 <= j < i ==> property_view(#[trigger] r@[j]) == property_entry(
                    ids@[j],
                    j,
                    descriptions@,
                    data_types@,
                    values@,
                    statuses@,
                    missing_hint@,
                ),
        decreases ids.len() - i,
    {
        let description = if i < descriptions.len() {
            match &descriptions[i] {
                Some(d) => d.clone(),
                None => String::new(),
            }
        } else {
            String::new()
        };
        let data_type: u16 = if i < data_types.len() {
            data_types[i]
        } else {
            0
        };
        let ok = i < statuses.len() && statuses[i].code >= 0;
        let value = if ok {
            if i < values.len() {
                values[i].clone()
            } else {
                String::new()
            }
        } else {
            let mut m = String::from_str("Error: ");
            if i < statuses.len() {
                m.append(statuses[i].hint.as_str());
            } else {
                m.append(missing_hint);
            }
            m
        };
        r.push(ItemProperty { id: ids[i], description, data_type, value });
        i = i + 1;
    }
    r
}

/// The accepted count of a prefix never exceeds that of the whole.
proof fn lemma_accepted_prefix_len(replies: Seq<ItemStatus>, i: int)
    requires
        0 <= i <= replies.len(),
    ensures
        accepted_positions(replies.take(i)).len() <= accepted_positions(replies).len(),
    decreases replies.len() - i,
{
    if i < replies.len() {
        lemma_accepted_step(replies, i);
        lemma_accepted_prefix_len(replies, i + 1);
    } else {
        assert(replies.take(i) =~= replies);
    }
}

} // verus!
