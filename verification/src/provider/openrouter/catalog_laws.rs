//! What the model catalog gives, in terms of what the pages say.

use vstd::prelude::*;

use crate::provider::openrouter::price::{
    digits_value, fraction_digits, integer_digits, is_digit, is_plain_price, lemma_price_is_in_shortest_form,
    lemma_price_is_scaled_exactly, power_of_ten, price_per_million,
};
use crate::provider::openrouter::wire::{
    catalog_page, decoded_page, envelope_message, lemma_page_keeps_every_model, normalized_model,
    normalized_models, CatalogModelView, CatalogPageView,
};
use crate::provider::openrouter::{
    http_error_text, url_host, url_join, url_port, url_scheme, walk_start, walk_step, CatalogReply,
    CatalogWalkView,
};
use crate::provider::{ModelMetadataView, ProviderErrorView};
use crate::text::{is_whitespace_char, split_on};
use crate::text_laws::{lemma_pieces_are_unique, lemma_split_gives_pieces};

verus! {

/// Whether a text is made of ASCII digits.
pub open spec fn all_digits(s: Seq<char>) -> bool {
    forall|i: int| 0 <= i < s.len() ==> '0' <= #[trigger] s[i] <= '9'
}

/// `text` writes the number with these digits before and behind the point; without digits behind it
/// there is no point.
pub open spec fn writes_number(text: Seq<char>, integer: Seq<char>, fraction: Seq<char>) -> bool {
    &&& integer.len() > 0
    &&& all_digits(integer)
    &&& all_digits(fraction)
    &&& text == if fraction.len() == 0 {
        integer
    } else {
        integer.push('.') + fraction
    }
}

/// Whether a text writes a number.
pub open spec fn is_number(text: Seq<char>) -> bool {
    exists|integer: Seq<char>, fraction: Seq<char>| #[trigger]
        writes_number(text, integer, fraction)
}

/// The number that `million` writes is one million times the number that `one` writes: both, times
/// the powers of ten that make them whole, are compared.
pub open spec fn is_million_times(million: Seq<char>, one: Seq<char>) -> bool {
    exists|i: Seq<char>, f: Seq<char>, mi: Seq<char>, mf: Seq<char>|
        {
            &&& #[trigger] writes_number(one, i, f)
            &&& #[trigger] writes_number(million, mi, mf)
            &&& digits_value(mi + mf) * power_of_ten(f.len()) == 1_000_000 * digits_value(i + f)
                * power_of_ten(mf.len())
            &&& mi[0] == '0' ==> mi.len() == 1
            &&& mf.len() > 0 ==> mf.last() != '0'
        }
}

/// A price of the catalog and the price that is kept of it: there is none exactly where the catalog
/// gives none or `-1`, and any other is one million times the catalog's, without needless zeros.
pub open spec fn price_is_kept(given: Option<Seq<char>>, kept: Option<Seq<char>>) -> bool {
    &&& kept is None <==> given is None || given->0 == "-1"@
    &&& kept is Some ==> is_million_times(kept->0, given->0)
}

/// What is kept of a model of the catalog.
pub open spec fn model_is_kept(model: CatalogModelView, metadata: ModelMetadataView) -> bool {
    &&& metadata.model_id == model.id
    &&& metadata.display_name == model.name
    &&& metadata.limits.context_window_tokens == model.context_length
    &&& metadata.limits.maximum_output_tokens == model.max_completion_tokens
    &&& price_is_kept(model.prompt_price, metadata.prompt_price_usd_per_million_tokens)
    &&& price_is_kept(model.completion_price, metadata.completion_price_usd_per_million_tokens)
}

/// A price that can be read: none, `-1`, or a number.
pub open spec fn price_is_readable(given: Option<Seq<char>>) -> bool {
    given is None || given->0 == "-1"@ || is_number(given->0)
}

/// A text with something else than whitespace in it.
pub open spec fn has_visible_text(s: Seq<char>) -> bool {
    exists|i: int| 0 <= i < s.len() && !is_whitespace_char(#[trigger] s[i])
}

/// A model that can be used: it has an identity and a name, and its prices can be read.
pub open spec fn model_is_usable(model: CatalogModelView) -> bool {
    &&& has_visible_text(model.id)
    &&& has_visible_text(model.name)
    &&& price_is_readable(model.prompt_price)
    &&& price_is_readable(model.completion_price)
}

proof fn lemma_number_is_plain(text: Seq<char>, integer: Seq<char>, fraction: Seq<char>)
    requires
        writes_number(text, integer, fraction),
    ensures
        is_plain_price(text),
        integer_digits(text) == integer,
        fraction_digits(text) == fraction,
{
    let ended = |piece: Seq<char>| piece.push('.');
    assert forall|k: int| 0 <= k < integer.len() implies #[trigger] integer[k] != '.' by {
        assert('0' <= integer[k] <= '9');
    }
    assert forall|k: int| 0 <= k < fraction.len() implies #[trigger] fraction[k] != '.' by {
        assert('0' <= fraction[k] <= '9');
    }
    let one = seq![integer.push('.')];
    assert(one =~= Seq::<Seq<char>>::empty().push(integer.push('.')));
    Seq::<Seq<char>>::empty().lemma_flatten_push(integer.push('.'));
    assert(Seq::<Seq<char>>::empty().flatten() =~= Seq::<char>::empty());
    assert(one.flatten() =~= integer.push('.'));
    if fraction.len() == 0 {
        let pieces = seq![integer];
        assert(pieces.map_values(ended) =~= one);
        lemma_pieces_are_unique(pieces, text, '.');
        assert(fraction =~= Seq::empty());
    } else {
        let pieces = seq![integer, fraction];
        assert(pieces.map_values(ended) =~= one.push(fraction.push('.')));
        one.lemma_flatten_push(fraction.push('.'));
        assert(text.push('.') =~= pieces.map_values(ended).flatten());
        lemma_pieces_are_unique(pieces, text, '.');
    }
    let parts = split_on(text, '.');
    assert forall|k: int| 0 <= k < parts[0].len() implies is_digit(
        #[trigger] parts[0][k],
    ) by {
        assert('0' <= integer[k] <= '9');
    }
    if parts.len() == 2 {
        assert forall|k: int|
            0 <= k < parts[1].len() implies is_digit(
            #[trigger] parts[1][k],
        ) by {
            assert('0' <= fraction[k] <= '9');
        }
    }
}

proof fn lemma_plain_is_number(text: Seq<char>)
    requires
        is_plain_price(text),
    ensures
        writes_number(text, integer_digits(text), fraction_digits(text)),
{
    let ended = |piece: Seq<char>| piece.push('.');
    let pieces = split_on(text, '.');
    lemma_split_gives_pieces(text, '.');
    let integer = integer_digits(text);
    let fraction = fraction_digits(text);
    let one = seq![integer.push('.')];
    assert(one =~= Seq::<Seq<char>>::empty().push(integer.push('.')));
    Seq::<Seq<char>>::empty().lemma_flatten_push(integer.push('.'));
    assert(Seq::<Seq<char>>::empty().flatten() =~= Seq::<char>::empty());
    assert(one.flatten() =~= integer.push('.'));
    assert(text =~= text.push('.').drop_last());
    if pieces.len() == 1 {
        assert(pieces.map_values(ended) =~= one);
        assert(text =~= integer);
    } else {
        assert(pieces.map_values(ended) =~= one.push(fraction.push('.')));
        one.lemma_flatten_push(fraction.push('.'));
        assert(text =~= integer.push('.') + fraction);
    }
    assert forall|k: int| 0 <= k < integer.len() implies '0' <= #[trigger] integer[k] <= '9' by {
        assert(is_digit(pieces[0][k]));
    }
    assert forall|k: int| 0 <= k < fraction.len() implies '0' <= #[trigger] fraction[k] <= '9' by {
        assert(is_digit(pieces[1][k]));
    }
}

/// A price text is refused exactly when it is neither `-1` nor a number. `-1` gives no price, and a
/// number gives one million times that number.
pub proof fn lemma_price_is_a_million_times(price: Seq<char>)
    ensures
        price == "-1"@ ==> price_per_million(price) == Ok::<Option<Seq<char>>, Seq<char>>(None),
        price != "-1"@ && is_number(price) ==> {
            &&& price_per_million(price) is Ok
            &&& price_per_million(price)->Ok_0 is Some
            &&& is_million_times(price_per_million(price)->Ok_0->0, price)
        },
        price_per_million(price) is Err <==> price != "-1"@ && !is_number(price),
{
    if is_number(price) {
        let (i, f) = choose|i: Seq<char>, f: Seq<char>| #[trigger] writes_number(price, i, f);
        lemma_number_is_plain(price, i, f);
        if price != "-1"@ {
            let scaled = price_per_million(price)->Ok_0->0;
            lemma_price_is_scaled_exactly(price);
            lemma_price_is_in_shortest_form(price);
            lemma_plain_is_number(scaled);
            assert(writes_number(price, i, f));
            assert(writes_number(scaled, integer_digits(scaled), fraction_digits(scaled)));
            assert(is_million_times(scaled, price));
        }
    }
    if is_plain_price(price) {
        lemma_plain_is_number(price);
        assert(is_number(price));
    }
}

/// A model of the catalog is usable exactly when it has an identity and a name and its prices can be
/// read; then its identity, name and limits are kept as they are, and its prices are a million times
/// the catalog's.
pub proof fn lemma_model_is_kept(model: CatalogModelView)
    ensures
        normalized_model(model) is Ok <==> model_is_usable(model),
        normalized_model(model) matches Ok(metadata) ==> model_is_kept(model, metadata),
{
    if let Some(price) = model.prompt_price {
        lemma_price_is_a_million_times(price);
    }
    if let Some(price) = model.completion_price {
        lemma_price_is_a_million_times(price);
    }
}

/// A page is read exactly when all its models are usable and its next link, if it has one, is not
/// blank. It then gives every one of its models, in order, and that link.
pub proof fn lemma_page_is_kept(page: CatalogPageView)
    ensures
        catalog_page(Some(page)) is Ok <==> {
            &&& forall|i: int| 0 <= i < page.data.len() ==> model_is_usable(#[trigger] page.data[i])
            &&& page.next is Some ==> has_visible_text(page.next->0)
        },
        catalog_page(Some(page)) matches Ok((models, next)) ==> {
            &&& next == page.next
            &&& models.len() == page.data.len()
            &&& forall|i: int|
                0 <= i < models.len() ==> model_is_kept(page.data[i], #[trigger] models[i])
        },
        catalog_page(None) is Err,
{
    let data = page.data;
    lemma_page_keeps_every_model(data);
    match normalized_models(data) {
        Ok(metadata) => {
            assert forall|i: int| 0 <= i < data.len() implies model_is_usable(#[trigger] data[i])
                && model_is_kept(data[i], metadata[i]) by {
                lemma_model_is_kept(data[i]);
            }
        },
        Err(detail) => {
            let i = choose|i: int|
                0 <= i < data.len() && normalized_model(#[trigger] data[i]) == Err::<
                    ModelMetadataView,
                    Seq<char>,
                >(detail);
            lemma_model_is_kept(data[i]);
            assert(!model_is_usable(data[i]));
        },
    }
}

/// What is said of a page that cannot be read is what is wrong with the first model that cannot be
/// used: it lacks an identity or a name, or else a price cannot be read. A page whose models can all be
/// used has a blank link.
pub proof fn lemma_unreadable_page_is_explained(page: CatalogPageView)
    requires
        catalog_page(Some(page)) is Err,
    ensures
        ({
            let detail = catalog_page(Some(page))->Err_0;
            ||| exists|i: int|
                {
                    &&& 0 <= i < page.data.len()
                    &&& !model_is_usable(#[trigger] page.data[i])
                    &&& forall|k: int|
                        0 <= k < i ==> model_is_usable(#[trigger] page.data[k])
                    &&& detail == if has_visible_text(page.data[i].id) && has_visible_text(
                        page.data[i].name,
                    ) {
                        "the OpenRouter model catalog contains malformed pricing"@
                    } else {
                        "the OpenRouter model catalog contains empty model metadata"@
                    }
                }
            ||| {
                &&& forall|k: int|
                    0 <= k < page.data.len() ==> model_is_usable(#[trigger] page.data[k])
                &&& detail == "the OpenRouter model catalog contains an empty next link"@
            }
        }),
{
    lemma_page_is_kept(page);
    if normalized_models(page.data) is Err {
        let i = lemma_first_unusable_model(page.data);
        assert(!model_is_usable(page.data[i]));
    } else {
        lemma_page_keeps_every_model(page.data);
        assert forall|k: int| 0 <= k < page.data.len() implies model_is_usable(
            #[trigger] page.data[k],
        ) by {
            lemma_model_is_kept(page.data[k]);
        }
    }
}

proof fn lemma_first_unusable_model(models: Seq<CatalogModelView>) -> (i: int)
    requires
        normalized_models(models) is Err,
    ensures
        0 <= i < models.len(),
        !model_is_usable(models[i]),
        forall|k: int| 0 <= k < i ==> model_is_usable(#[trigger] models[k]),
        normalized_models(models)->Err_0 == if has_visible_text(models[i].id) && has_visible_text(
            models[i].name,
        ) {
            "the OpenRouter model catalog contains malformed pricing"@
        } else {
            "the OpenRouter model catalog contains empty model metadata"@
        },
    decreases models.len(),
{
    let before = models.drop_last();
    if normalized_models(before) is Err {
        let i = lemma_first_unusable_model(before);
        assert forall|k: int| 0 <= k < i implies model_is_usable(#[trigger] models[k]) by {
            assert(before[k] == models[k]);
        }
        i
    } else {
        let n = models.len() - 1;
        lemma_page_keeps_every_model(before);
        assert forall|k: int| 0 <= k < n implies model_is_usable(#[trigger] models[k]) by {
            assert(before[k] == models[k]);
            lemma_model_is_kept(before[k]);
        }
        lemma_model_is_kept(models.last());
        assert(models.last() == models[n]);
        n
    }
}

/// What is said of a reply that is not taken: what the server says of a status that is no success, what
/// is wrong with the page, or what is wrong with its link.
pub proof fn lemma_refused_reply_is_explained(walk: CatalogWalkView, reply: CatalogReply)
    requires
        walk_step(walk, reply) is Err,
    ensures
        ({
            let said = walk_step(walk, reply)->Err_0;
            let page = decoded_page(reply.page);
            &&& !(200 <= reply.status <= 299) ==> said == ProviderErrorView::RequestSetup(
                http_error_text(
                    reply.status,
                    envelope_message(reply.envelope),
                    reply.context@,
                    false,
                    walk.api_key,
                ),
            )
            &&& 200 <= reply.status <= 299 && page is None ==> said
                == ProviderErrorView::RequestSetup(
                "the OpenRouter model catalog response is malformed"@,
            )
            &&& 200 <= reply.status <= 299 && page is Some && catalog_page(page) is Err ==> said
                == ProviderErrorView::RequestSetup(catalog_page(page)->Err_0)
            &&& 200 <= reply.status <= 299 && page is Some && catalog_page(page) is Ok ==> {
                let joined = url_join(walk.next_url, page->0.next->0);
                &&& page->0.next is Some
                &&& joined is Err ==> said == ProviderErrorView::RequestSetup(
                    "the OpenRouter model catalog contains an invalid next link: "@
                        + joined->Err_0,
                )
                &&& joined is Ok ==> said == ProviderErrorView::RequestSetup(
                    "the OpenRouter model catalog contains a next link with a different origin"@,
                )
            }
        }),
{
    if let Some(page) = decoded_page(reply.page) {
        lemma_page_is_kept(page);
    }
}

/// Two addresses name the same scheme, host and port.
pub open spec fn share_origin(a: Seq<char>, b: Seq<char>) -> bool {
    url_scheme(a) == url_scheme(b) && url_host(a) == url_host(b) && url_port(a) == url_port(b)
}

/// A reply is taken exactly when its status reports success, its page can be read, and its next link,
/// if it has one, leads to the same origin.
pub proof fn lemma_when_reply_is_taken(walk: CatalogWalkView, reply: CatalogReply)
    ensures
        walk_step(walk, reply) is Ok <==> {
            &&& 200 <= reply.status <= 299
            &&& decoded_page(reply.page) is Some
            &&& {
                let page = decoded_page(reply.page)->0;
                &&& forall|i: int|
                    0 <= i < page.data.len() ==> model_is_usable(#[trigger] page.data[i])
                &&& page.next is Some ==> {
                    &&& has_visible_text(page.next->0)
                    &&& url_join(walk.next_url, page.next->0) is Ok
                    &&& share_origin(walk.next_url, url_join(walk.next_url, page.next->0)->Ok_0)
                }
            }
        },
{
    if let Some(page) = decoded_page(reply.page) {
        lemma_page_is_kept(page);
    }
}

/// A reply that is taken adds every model of its page, in order, behind the models before; the next
/// page is where its link leads, and without a link the walk is finished.
pub proof fn lemma_reply_is_taken_whole(walk: CatalogWalkView, reply: CatalogReply)
    requires
        walk_step(walk, reply) is Ok,
    ensures
        ({
            let post = walk_step(walk, reply)->Ok_0;
            let page = decoded_page(reply.page)->0;
            &&& decoded_page(reply.page) is Some
            &&& post.models.len() == walk.models.len() + page.data.len()
            &&& post.models.take(walk.models.len() as int) == walk.models
            &&& forall|i: int|
                0 <= i < page.data.len() ==> model_is_kept(
                    #[trigger] page.data[i],
                    post.models[walk.models.len() + i],
                )
            &&& post.api_key == walk.api_key
            &&& page.next is None ==> post.finished && post.next_url == walk.next_url
            &&& page.next is Some ==> post.finished == walk.finished && Ok::<Seq<char>, Seq<char>>(
                post.next_url,
            ) == url_join(walk.next_url, page.next->0)
        }),
{
    let page = decoded_page(reply.page)->0;
    lemma_page_is_kept(page);
    let post = walk_step(walk, reply)->Ok_0;
    let added = (catalog_page(Some(page))->Ok_0).0;
    assert(post.models == walk.models + added);
    assert(post.models.take(walk.models.len() as int) =~= walk.models);
    assert forall|i: int| 0 <= i < page.data.len() implies model_is_kept(
        #[trigger] page.data[i],
        post.models[walk.models.len() + i],
    ) by {
        assert(post.models[walk.models.len() + i] == added[i]);
    }
}

/// A walk begins at the address that it is given, with the key that is known and no models.
pub proof fn lemma_walk_begins_empty(
    key: Result<Seq<char>, Seq<char>>,
    catalog_url: Result<Seq<char>, Seq<char>>,
)
    ensures
        walk_start(key, catalog_url) is Ok <==> catalog_url is Ok,
        walk_start(key, catalog_url) matches Ok(walk) ==> {
            &&& walk.next_url == catalog_url->Ok_0
            &&& key is Ok ==> walk.api_key == Some(key->Ok_0)
            &&& key is Err ==> walk.api_key is None
            &&& walk.models.len() == 0
            &&& !walk.finished
        },
        walk_start(key, catalog_url) matches Err(error) ==> error
            == ProviderErrorView::RequestSetup(
            "unable to build the OpenRouter model catalog URL: "@ + catalog_url->Err_0,
        ),
{
}

} // verus!
