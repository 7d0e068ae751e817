//! The pages of a device, as its applications list them.

use crate::proxy;
use crate::proxy::{PageInfoView, PageTable};
use crate::rpc::PageView;
use crate::seqs;
use vstd::prelude::*;

verus! {

/// Whether a page is the one that an application knows under an identifier.
pub open spec fn is_page_of(p: PageInfoView, app_id: Seq<char>, page_id: u32) -> bool {
    p.app_id == app_id && p.page_id == page_id
}

/// Whether two pages are the same but for what a listing tells of a page.
pub open spec fn same_but_for_listing(a: PageInfoView, b: PageInfoView) -> bool {
    &&& a.page_num == b.page_num
    &&& a.page_type == b.page_type
    &&& a.app_id == b.app_id
    &&& a.page_id == b.page_id
    &&& a.sender_id == b.sender_id
    &&& a.ws_client_id == b.ws_client_id
}

/// Whether a page has the title, the address and the connection that are listed.
pub open spec fn shows_listed(p: PageInfoView, listed: PageView) -> bool {
    &&& p.title == listed.title
    &&& p.url == listed.url
    &&& p.connection_id == listed.connection_id
}

/// What is there of a page after one more is listed.
proof fn lemma_one(n: PageTable, app_id: Seq<char>, p: PageView)
    ensures
        ({
            let after = proxy::list_one(n, app_id, p);
            let i = seqs::first_index(n.pages, proxy::identified(app_id, p.page_id));
            &&& 0 <= i < after.pages.len()
            &&& after.pages.len() >= n.pages.len()
            &&& is_page_of(after.pages[i], app_id, p.page_id)
            &&& shows_listed(after.pages[i], p)
            &&& forall|k: int|
                0 <= k < n.pages.len() ==> same_but_for_listing(
                    #[trigger] n.pages[k],
                    after.pages[k],
                )
            &&& forall|k: int|
                0 <= k < n.pages.len() && !is_page_of(#[trigger] n.pages[k], app_id, p.page_id)
                    ==> after.pages[k] == n.pages[k]
        }),
{
    seqs::lemma_first_index(n.pages, proxy::identified(app_id, p.page_id));
}

/// What stays of a page whatever is listed, and that a page that is not listed stays as it is.
proof fn lemma_stays_put(n: PageTable, app_id: Seq<char>, listed: Seq<PageView>, i: int)
    requires
        0 <= i < n.pages.len(),
    ensures
        ({
            let after = proxy::list_all(n, app_id, listed);
            &&& after.pages.len() >= n.pages.len()
            &&& same_but_for_listing(n.pages[i], after.pages[i])
            &&& (n.pages[i].app_id != app_id || forall|k: int|
                0 <= k < listed.len() ==> (#[trigger] listed[k]).page_id != n.pages[i].page_id)
                ==> after.pages[i] == n.pages[i]
        }),
    decreases listed.len(),
{
    if listed.len() > 0 {
        let next = proxy::list_one(n, app_id, listed[0]);
        let rest = listed.skip(1);
        lemma_one(n, app_id, listed[0]);
        assert(same_but_for_listing(n.pages[i], next.pages[i]));
        lemma_stays_put(next, app_id, rest, i);
        if n.pages[i].app_id != app_id || forall|k: int|
            0 <= k < listed.len() ==> (#[trigger] listed[k]).page_id != n.pages[i].page_id {
            assert(listed[0].page_id == listed[0].page_id);
            assert(!is_page_of(n.pages[i], app_id, listed[0].page_id));
            assert(next.pages[i] == n.pages[i]);
            assert forall|k: int| 0 <= k < rest.len() && n.pages[i].app_id == app_id implies (
            #[trigger] rest[k]).page_id != n.pages[i].page_id by {
                assert(rest[k] == listed[k + 1]);
            }
        }
    }
}

/// Room for a listing is room for what is left of it after the first page.
proof fn lemma_room_left(n: PageTable, app_id: Seq<char>, listed: Seq<PageView>)
    requires
        listed.len() > 0,
        proxy::has_numbers(n, app_id, listed),
    ensures
        n.max < u32::MAX || proxy::known_ids(n.pages, app_id).contains(listed[0].page_id),
        proxy::has_numbers(proxy::list_one(n, app_id, listed[0]), app_id, listed.skip(1)),
        proxy::known_ids(proxy::list_one(n, app_id, listed[0]).pages, app_id) == proxy::known_ids(
            n.pages,
            app_id,
        ).insert(listed[0].page_id),
        proxy::list_one(n, app_id, listed[0]).max == (if proxy::known_ids(
            n.pages,
            app_id,
        ).contains(listed[0].page_id) {
            n.max as int
        } else {
            n.max + 1
        }),
{
    let known = proxy::known_ids(n.pages, app_id);
    proxy::lemma_list_one(n, app_id, listed[0]);
    if known.contains(listed[0].page_id) {
        assert(known.insert(listed[0].page_id) =~= known);
    }
}

/// After listing, some page shows the last entry for its identifier.
proof fn lemma_shown(n: PageTable, app_id: Seq<char>, listed: Seq<PageView>, k: int)
    requires
        0 <= k < listed.len(),
        forall|j: int| k < j < listed.len() ==> (#[trigger] listed[j]).page_id != listed[k].page_id,
    ensures
        exists|i: int|
            0 <= i < proxy::list_all(n, app_id, listed).pages.len() && is_page_of(
                #[trigger] proxy::list_all(n, app_id, listed).pages[i],
                app_id,
                listed[k].page_id,
            ) && shows_listed(proxy::list_all(n, app_id, listed).pages[i], listed[k]),
    decreases listed.len(),
{
    let next = proxy::list_one(n, app_id, listed[0]);
    let rest = listed.skip(1);
    let after = proxy::list_all(n, app_id, listed);
    assert(after == proxy::list_all(next, app_id, rest));
    if k == 0 {
        lemma_one(n, app_id, listed[0]);
        let i = seqs::first_index(n.pages, proxy::identified(app_id, listed[0].page_id));
        assert forall|j: int| 0 <= j < rest.len() implies (#[trigger] rest[j]).page_id
            != next.pages[i].page_id by {
            assert(rest[j] == listed[j + 1]);
        }
        lemma_stays_put(next, app_id, rest, i);
        assert(after.pages[i] == next.pages[i]);
    } else {
        assert(rest[k - 1] == listed[k]);
        assert forall|j: int| k - 1 < j < rest.len() implies (#[trigger] rest[j]).page_id
            != rest[k - 1].page_id by {
            assert(rest[j] == listed[j + 1]);
        }
        lemma_shown(next, app_id, rest, k - 1);
    }
}

/// A page that is listed is kept when the pages that are not listed go.
proof fn lemma_kept(n: PageTable, app_id: Seq<char>, listed: Seq<PageView>, i: int)
    requires
        0 <= i < proxy::list_all(n, app_id, listed).pages.len(),
        ({
            let p = proxy::list_all(n, app_id, listed).pages[i];
            p.app_id != app_id || exists|k: int|
                0 <= k < listed.len() && (#[trigger] listed[k]).page_id == p.page_id
        }),
    ensures
        proxy::list_pages(n, app_id, listed).pages.contains(
            proxy::list_all(n, app_id, listed).pages[i],
        ),
{
    let all = proxy::list_all(n, app_id, listed);
    let f = proxy::stays(app_id, listed);
    proxy::lemma_filter_is_part(all.pages, f);
    assert(f(all.pages[i]));
}

/// After a listing, the application has a page for every identifier that is listed, and that page
/// shows the title, the address and the connection of the last entry with the identifier, whether
/// it was known before or not. No other page of the application has the identifier.
pub proof fn law_listed_page_is_up_to_date(
    n: PageTable,
    app_id: Seq<char>,
    listed: Seq<PageView>,
    k: int,
)
    requires
        proxy::table_ok(n),
        proxy::has_numbers(n, app_id, listed),
        0 <= k < listed.len(),
        forall|j: int| k < j < listed.len() ==> (#[trigger] listed[j]).page_id != listed[k].page_id,
    ensures
        exists|i: int|
            0 <= i < proxy::list_pages(n, app_id, listed).pages.len() && is_page_of(
                #[trigger] proxy::list_pages(n, app_id, listed).pages[i],
                app_id,
                listed[k].page_id,
            ),
        forall|i: int|
            0 <= i < proxy::list_pages(n, app_id, listed).pages.len() && is_page_of(
                #[trigger] proxy::list_pages(n, app_id, listed).pages[i],
                app_id,
                listed[k].page_id,
            ) ==> shows_listed(proxy::list_pages(n, app_id, listed).pages[i], listed[k]),
{
    reveal(proxy::table_ok);
    let all = proxy::list_all(n, app_id, listed);
    let after = proxy::list_pages(n, app_id, listed);
    let id = listed[k].page_id;
    proxy::lemma_list_all(n, app_id, listed);
    lemma_shown(n, app_id, listed, k);
    let p = choose|i: int|
        0 <= i < all.pages.len() && is_page_of(#[trigger] all.pages[i], app_id, id) && shows_listed(
            all.pages[i],
            listed[k],
        );
    lemma_kept(n, app_id, listed, p);
    let q = choose|q: int| 0 <= q < after.pages.len() && after.pages[q] == all.pages[p];
    assert(is_page_of(after.pages[q], app_id, id));
    proxy::lemma_filter_is_part(all.pages, proxy::stays(app_id, listed));
    assert forall|i: int|
        0 <= i < after.pages.len() && is_page_of(
            #[trigger] after.pages[i],
            app_id,
            id,
        ) implies shows_listed(after.pages[i], listed[k]) by {
        assert(all.pages.contains(after.pages[i]));
        let j = choose|j: int| 0 <= j < all.pages.len() && all.pages[j] == after.pages[i];
        if j < p {
            assert(all.pages[j].page_id != all.pages[p].page_id || all.pages[j].app_id
                != all.pages[p].app_id);
        } else if p < j {
            assert(all.pages[p].page_id != all.pages[j].page_id || all.pages[p].app_id
                != all.pages[j].app_id);
        }
    }
}

/// A page that was there, and that is listed or another application's, is there after a listing
/// with its number, its type, and the client that debugs it. Another application's is there as it
/// was.
pub proof fn law_known_page_stays_itself(
    n: PageTable,
    app_id: Seq<char>,
    listed: Seq<PageView>,
    i: int,
)
    requires
        0 <= i < n.pages.len(),
        n.pages[i].app_id != app_id || exists|k: int|
            0 <= k < listed.len() && (#[trigger] listed[k]).page_id == n.pages[i].page_id,
    ensures
        exists|j: int|
            0 <= j < proxy::list_pages(n, app_id, listed).pages.len() && same_but_for_listing(
                n.pages[i],
                #[trigger] proxy::list_pages(n, app_id, listed).pages[j],
            ) && (n.pages[i].app_id != app_id ==> proxy::list_pages(n, app_id, listed).pages[j]
                == n.pages[i]),
{
    let all = proxy::list_all(n, app_id, listed);
    let after = proxy::list_pages(n, app_id, listed);
    lemma_stays_put(n, app_id, listed, i);
    lemma_kept(n, app_id, listed, i);
    let j = choose|j: int| 0 <= j < after.pages.len() && after.pages[j] == all.pages[i];
    assert(same_but_for_listing(n.pages[i], after.pages[j]));
}

/// After a listing, every page of the application is one that is listed.
pub proof fn law_unlisted_pages_go(n: PageTable, app_id: Seq<char>, listed: Seq<PageView>, i: int)
    requires
        0 <= i < proxy::list_pages(n, app_id, listed).pages.len(),
        proxy::list_pages(n, app_id, listed).pages[i].app_id == app_id,
    ensures
        exists|k: int|
            0 <= k < listed.len() && (#[trigger] listed[k]).page_id == proxy::list_pages(
                n,
                app_id,
                listed,
            ).pages[i].page_id,
{
    let all = proxy::list_all(n, app_id, listed);
    proxy::lemma_filter_is_part(all.pages, proxy::stays(app_id, listed));
    let p = proxy::list_pages(n, app_id, listed).pages[i];
    assert(proxy::stays(app_id, listed)(p));
}

/// A new page after listing, by the number of new pages before it.
proof fn lemma_numbered(n: PageTable, app_id: Seq<char>, listed: Seq<PageView>, k: int)
    requires
        proxy::has_numbers(n, app_id, listed),
        0 <= k < listed.len(),
        forall|j: int| 0 <= j < k ==> (#[trigger] listed[j]).page_id != listed[k].page_id,
        !proxy::known_ids(n.pages, app_id).contains(listed[k].page_id),
    ensures
        exists|i: int|
            0 <= i < proxy::list_all(n, app_id, listed).pages.len() && is_page_of(
                #[trigger] proxy::list_all(n, app_id, listed).pages[i],
                app_id,
                listed[k].page_id,
            ) && proxy::list_all(n, app_id, listed).pages[i].page_num == n.max + proxy::new_count(
                proxy::known_ids(n.pages, app_id),
                listed.take(k),
            ) + 1 && proxy::list_all(n, app_id, listed).pages[i].page_type == listed[k].page_type
                && proxy::list_all(n, app_id, listed).pages[i].sender_id is None
                && proxy::list_all(n, app_id, listed).pages[i].ws_client_id is None,
    decreases listed.len(),
{
    let next = proxy::list_one(n, app_id, listed[0]);
    let rest = listed.skip(1);
    let after = proxy::list_all(n, app_id, listed);
    let known = proxy::known_ids(n.pages, app_id);
    assert(after == proxy::list_all(next, app_id, rest));
    lemma_room_left(n, app_id, listed);
    if k == 0 {
        proxy::lemma_list_one(n, app_id, listed[0]);
        let i = n.pages.len() as int;
        assert(next.pages.len() == i + 1);
        lemma_stays_put(next, app_id, rest, i);
        assert(is_page_of(after.pages[i], app_id, listed[0].page_id));
        assert(proxy::new_count(known, listed.take(0)) == 0);
    } else {
        assert(rest[k - 1] == listed[k]);
        assert forall|j: int| 0 <= j < k - 1 implies (#[trigger] rest[j]).page_id
            != rest[k - 1].page_id by {
            assert(rest[j] == listed[j + 1]);
        }
        assert(listed[0].page_id != listed[k].page_id);
        if known.contains(listed[0].page_id) {
            assert(known.insert(listed[0].page_id) =~= known);
        }
        lemma_numbered(next, app_id, rest, k - 1);
        assert(listed.take(k)[0] == listed[0]);
        assert(listed.take(k).skip(1) =~= rest.take(k - 1));
        let i = choose|i: int|
            0 <= i < after.pages.len() && is_page_of(
                #[trigger] after.pages[i],
                app_id,
                listed[k].page_id,
            ) && after.pages[i].page_num == next.max + proxy::new_count(
                proxy::known_ids(next.pages, app_id),
                rest.take(k - 1),
            ) + 1 && after.pages[i].page_type == listed[k].page_type
                && after.pages[i].sender_id is None && after.pages[i].ws_client_id is None;
        assert(is_page_of(after.pages[i], app_id, listed[k].page_id));
    }
}

/// The highest number after listing is higher by the number of new pages.
proof fn lemma_max(n: PageTable, app_id: Seq<char>, listed: Seq<PageView>)
    requires
        proxy::has_numbers(n, app_id, listed),
    ensures
        proxy::list_all(n, app_id, listed).max == n.max + proxy::new_count(
            proxy::known_ids(n.pages, app_id),
            listed,
        ),
    decreases listed.len(),
{
    if listed.len() > 0 {
        let known = proxy::known_ids(n.pages, app_id);
        lemma_room_left(n, app_id, listed);
        if known.contains(listed[0].page_id) {
            assert(known.insert(listed[0].page_id) =~= known);
        }
        lemma_max(proxy::list_one(n, app_id, listed[0]), app_id, listed.skip(1));
    }
}

/// A page that was not known gets a number: new pages are numbered one after the other, from the
/// number behind the highest that was ever given, in the order in which they are first listed. A
/// new page has the type that it is first listed with, and nobody debugs it.
pub proof fn law_new_page_is_numbered(
    n: PageTable,
    app_id: Seq<char>,
    listed: Seq<PageView>,
    k: int,
)
    requires
        proxy::has_numbers(n, app_id, listed),
        0 <= k < listed.len(),
        forall|j: int| 0 <= j < k ==> (#[trigger] listed[j]).page_id != listed[k].page_id,
        forall|i: int|
            0 <= i < n.pages.len() ==> !is_page_of(
                #[trigger] n.pages[i],
                app_id,
                listed[k].page_id,
            ),
    ensures
        exists|i: int|
            0 <= i < proxy::list_pages(n, app_id, listed).pages.len() && is_page_of(
                #[trigger] proxy::list_pages(n, app_id, listed).pages[i],
                app_id,
                listed[k].page_id,
            ) && proxy::list_pages(n, app_id, listed).pages[i].page_num == n.max + proxy::new_count(
                proxy::known_ids(n.pages, app_id),
                listed.take(k),
            ) + 1 && proxy::list_pages(n, app_id, listed).pages[i].page_type == listed[k].page_type
                && proxy::list_pages(n, app_id, listed).pages[i].sender_id is None
                && proxy::list_pages(n, app_id, listed).pages[i].ws_client_id is None,
        proxy::list_pages(n, app_id, listed).max == n.max + proxy::new_count(
            proxy::known_ids(n.pages, app_id),
            listed,
        ),
{
    let all = proxy::list_all(n, app_id, listed);
    let after = proxy::list_pages(n, app_id, listed);
    let num = n.max + proxy::new_count(proxy::known_ids(n.pages, app_id), listed.take(k)) + 1;
    lemma_max(n, app_id, listed);
    if proxy::known_ids(n.pages, app_id).contains(listed[k].page_id) {
        let i = choose|i: int|
            0 <= i < n.pages.len() && (#[trigger] n.pages[i]).app_id == app_id && n.pages[i].page_id
                == listed[k].page_id;
        assert(is_page_of(n.pages[i], app_id, listed[k].page_id));
    }
    lemma_numbered(n, app_id, listed, k);
    let i = choose|i: int|
        0 <= i < all.pages.len() && is_page_of(#[trigger] all.pages[i], app_id, listed[k].page_id)
            && all.pages[i].page_num == num && all.pages[i].page_type == listed[k].page_type
            && all.pages[i].sender_id is None && all.pages[i].ws_client_id is None;
    lemma_kept(n, app_id, listed, i);
    let j = choose|j: int| 0 <= j < after.pages.len() && after.pages[j] == all.pages[i];
    assert(is_page_of(after.pages[j], app_id, listed[k].page_id));
}

/// Only pages whose identifier is not known and was not listed before count as new: one that is
/// listed behind the others adds one if it is new, and nothing otherwise.
pub proof fn law_new_pages_counted(known: Set<u32>, listed: Seq<PageView>, p: PageView)
    ensures
        proxy::new_count(known, Seq::empty()) == 0,
        proxy::new_count(known, listed) <= listed.len(),
        proxy::new_count(known, listed.push(p)) == proxy::new_count(known, listed) + (
        if known.contains(p.page_id) || exists|k: int|
            0 <= k < listed.len() && (#[trigger] listed[k]).page_id == p.page_id {
            0nat
        } else {
            1nat
        }),
    decreases listed.len(),
{
    let more = listed.push(p);
    if listed.len() == 0 {
        assert(more.skip(1) =~= Seq::empty());
        assert(proxy::new_count(known, more.skip(1)) == 0);
        assert(proxy::new_count(known.insert(p.page_id), more.skip(1)) == 0);
    } else {
        let first = listed[0].page_id;
        let rest = listed.skip(1);
        assert(more[0] == listed[0]);
        assert(more.skip(1) =~= rest.push(p));
        law_new_pages_counted(known, rest, p);
        law_new_pages_counted(known.insert(first), rest, p);
        let listed_before = exists|k: int|
            0 <= k < listed.len() && (#[trigger] listed[k]).page_id == p.page_id;
        let in_rest = exists|k: int| 0 <= k < rest.len() && (#[trigger] rest[k]).page_id == p.page_id;
        if listed_before {
            let k = choose|k: int| 0 <= k < listed.len() && (#[trigger] listed[k]).page_id == p.page_id;
            if k > 0 {
                assert(rest[k - 1] == listed[k]);
            }
        }
        if in_rest {
            let k = choose|k: int| 0 <= k < rest.len() && (#[trigger] rest[k]).page_id == p.page_id;
            assert(listed[k + 1] == rest[k]);
        }
        assert(listed_before <==> first == p.page_id || in_rest);
    }
}

/// The identifiers of an application's pages are those that its pages have: one more page adds its
/// own if it is the application's, and nothing otherwise.
pub proof fn law_identifiers(pages: Seq<PageInfoView>, p: PageInfoView, app_id: Seq<char>)
    ensures
        proxy::known_ids(Seq::empty(), app_id) == Set::<u32>::empty(),
        p.app_id == app_id ==> proxy::known_ids(pages.push(p), app_id) == proxy::known_ids(
            pages,
            app_id,
        ).insert(p.page_id),
        p.app_id != app_id ==> proxy::known_ids(pages.push(p), app_id) == proxy::known_ids(
            pages,
            app_id,
        ),
{
    let more = pages.push(p);
    let none: Seq<PageInfoView> = Seq::empty();
    let before = proxy::known_ids(pages, app_id);
    let after = proxy::known_ids(more, app_id);
    assert(proxy::known_ids(none, app_id) =~= Set::<u32>::empty());
    assert forall|id: u32| #[trigger] after.contains(id) <==> before.contains(id) || (p.app_id
        == app_id && p.page_id == id) by {
        if after.contains(id) {
            let k = choose|k: int|
                0 <= k < more.len() && (#[trigger] more[k]).app_id == app_id && more[k].page_id == id;
            if k < pages.len() {
                assert(pages[k].app_id == app_id && pages[k].page_id == id);
            }
        }
        if before.contains(id) {
            let k = choose|k: int|
                0 <= k < pages.len() && (#[trigger] pages[k]).app_id == app_id && pages[k].page_id
                    == id;
            assert(more[k].app_id == app_id && more[k].page_id == id);
        }
        assert(more[pages.len() as int] == p);
    }
    if p.app_id == app_id {
        assert(after =~= before.insert(p.page_id));
    } else {
        assert(after =~= before);
    }
}

/// There is room for a listing as long as there are as many numbers left as pages are listed; and
/// a listing of pages that are all known always finds room.
pub proof fn law_room_for_listing(n: PageTable, app_id: Seq<char>, listed: Seq<PageView>)
    ensures
        n.max + listed.len() <= u32::MAX ==> proxy::has_numbers(n, app_id, listed),
        (forall|k: int|
            0 <= k < listed.len() ==> proxy::known_ids(n.pages, app_id).contains(
                (#[trigger] listed[k]).page_id,
            )) ==> proxy::has_numbers(n, app_id, listed),
{
    let known = proxy::known_ids(n.pages, app_id);
    lemma_few_are_new(known, listed);
}

proof fn lemma_few_are_new(known: Set<u32>, listed: Seq<PageView>)
    ensures
        proxy::new_count(known, listed) <= listed.len(),
        (forall|k: int| 0 <= k < listed.len() ==> known.contains((#[trigger] listed[k]).page_id))
            ==> proxy::new_count(known, listed) == 0,
    decreases listed.len(),
{
    if listed.len() > 0 {
        let rest = listed.skip(1);
        lemma_few_are_new(known, rest);
        lemma_few_are_new(known.insert(listed[0].page_id), rest);
        if forall|k: int| 0 <= k < listed.len() ==> known.contains((#[trigger] listed[k]).page_id) {
            assert(known.contains(listed[0].page_id));
            assert forall|k: int| 0 <= k < rest.len() implies known.contains(
                (#[trigger] rest[k]).page_id,
            ) by {
                assert(rest[k] == listed[k + 1]);
            }
        }
    }
}

} // verus!
