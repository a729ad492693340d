//! Reading a profile page: the number of pages and the films on one page.
//!
//! Reading goes in two steps. The first takes strings out of the parsed
//! page: the attributes and texts that a list item carries, the labels of the
//! page links. Which elements the engine finds for a selector is its own
//! affair; which of them are asked, and for what, is stated in `item_in`,
//! `items_in` and `control_in`. The second step decides what those strings
//! mean, in `film_from_markup`, `films_from_items` and `pages_from_control`.

use crate::decimal::{numeral_value, parse_u64, parse_usize};
use crate::error::{Fault, LetterboxdError};
use crate::film::{Film, FilmView};
use crate::markup::{
    attribute, attribute_value, compile, compiled, inner_html_text, matches_in_document,
    matches_in_element, parsed, read_document, select_in_document, select_in_element,
    text_nodes, text_of, texts, texts_of, MAX_DOCUMENT_CHARS,
};
use crate::rating::{rating_of_glyphs, Rating, RatingError};
use scraper::{ElementRef, Html, Selector};
use vstd::prelude::*;

verus! {

/// A result with its error as plain values.
pub open spec fn outcome<T>(result: Result<T, LetterboxdError>) -> Result<T, Fault> {
    match result {
        Ok(value) => Ok(value),
        Err(error) => Err(error@),
    }
}

/// What one list item of a page carries.
///
/// An attribute is `None` where the item has no such attribute, or lacks the
/// element that would carry it. `rating` is the text of the rating marker,
/// empty where the marker holds no text, and `None` where the item has no
/// marker: the user did not rate the film.
pub struct ItemMarkup {
    /// `data-film-id` of the item's data element.
    pub film_id: Option<String>,
    /// `data-item-slug` of the item's data element.
    pub slug: Option<String>,
    /// `alt` of the item's image.
    pub name: Option<String>,
    /// `src` of the item's image.
    pub poster: Option<String>,
    pub rating: Option<String>,
}

/// A list item as plain values.
pub struct ItemView {
    pub film_id: Option<Seq<char>>,
    pub slug: Option<Seq<char>>,
    pub name: Option<Seq<char>>,
    pub poster: Option<Seq<char>>,
    pub rating: Option<Seq<char>>,
}

impl View for ItemMarkup {
    type V = ItemView;

    open spec fn view(&self) -> ItemView {
        ItemView {
            film_id: text_of(self.film_id),
            slug: text_of(self.slug),
            name: text_of(self.name),
            poster: text_of(self.poster),
            rating: text_of(self.rating),
        }
    }
}

/// Where the pages of the films live; a film's slug follows.
pub open spec fn film_url_prefix() -> Seq<char> {
    "https://letterboxd.com/film/"@
}

/// Whether `text` is the numeral of a film id.
pub open spec fn is_film_id(text: Seq<char>) -> bool {
    numeral_value(text) matches Some(n) && n <= u64::MAX
}

/// The first thing that is wrong with a list item, if anything is. The
/// rating marker is looked at first, then the id, the name, the slug and the
/// poster.
pub open spec fn fault_of(item: ItemView) -> Option<Fault> {
    if item.rating.is_some() && rating_of_glyphs(item.rating.unwrap()).is_none() {
        Some(Fault::UnknownGlyph(item.rating.unwrap()))
    } else if item.film_id.is_none() {
        Some(Fault::MissingAttr("data-film-id"@))
    } else if !is_film_id(item.film_id.unwrap()) {
        Some(Fault::BadNumber)
    } else if item.name.is_none() {
        Some(Fault::MissingAttr("alt"@))
    } else if item.slug.is_none() {
        Some(Fault::MissingAttr("data-item-slug"@))
    } else if item.poster.is_none() {
        Some(Fault::MissingAttr("src"@))
    } else {
        None
    }
}

/// The film that a list item without a fault describes.
pub open spec fn film_of(item: ItemView) -> FilmView {
    FilmView {
        id: numeral_value(item.film_id.unwrap()).unwrap() as u64,
        name: item.name.unwrap(),
        url: film_url_prefix() + item.slug.unwrap(),
        poster: item.poster.unwrap(),
        rating: match item.rating {
            Some(glyph) => rating_of_glyphs(glyph),
            None => None,
        },
    }
}

/// Whether `made` is what reading `item` has to give: the film that the item
/// describes where it has no fault, and else its first fault.
pub open spec fn reads_item(made: Result<Film, LetterboxdError>, item: ItemView) -> bool {
    match made {
        Ok(film) => fault_of(item).is_none() && film@ == film_of(item),
        Err(error) => fault_of(item) == Some(error@),
    }
}

/// Makes the film that a list item describes, or names the item's first
/// fault.
pub fn film_from_markup(item: ItemMarkup) -> (made: Result<Film, LetterboxdError>)
    ensures
        reads_item(made, item@),
{
    let rating = match item.rating {
        None => None,
        Some(glyph) => match Rating::from_display_string(glyph.as_str()) {
            Ok(rating) => Some(rating),
            Err(RatingError::UnknownGlyph(given)) => {
                return Err(LetterboxdError::UnknownGlyph(given));
            },
        },
    };
    let id = match item.film_id {
        None => {
            return Err(LetterboxdError::HtmlMissingAttr(String::from_str("data-film-id")));
        },
        Some(text) => match parse_u64(text.as_str()) {
            Ok(id) => id,
            Err(error) => {
                return Err(LetterboxdError::ParseError(error));
            },
        },
    };
    let name = match item.name {
        None => {
            return Err(LetterboxdError::HtmlMissingAttr(String::from_str("alt")));
        },
        Some(name) => name,
    };
    let url = match item.slug {
        None => {
            return Err(LetterboxdError::HtmlMissingAttr(String::from_str("data-item-slug")));
        },
        Some(slug) => String::from_str("https://letterboxd.com/film/").concat(slug.as_str()),
    };
    let poster = match item.poster {
        None => {
            return Err(LetterboxdError::HtmlMissingAttr(String::from_str("src")));
        },
        Some(poster) => poster,
    };
    Ok(Film { id, name, url, poster, rating })
}

/// The list items of a page as plain values.
pub open spec fn item_views(items: Seq<ItemMarkup>) -> Seq<ItemView> {
    Seq::new(items.len(), |i: int| items[i]@)
}

/// Whether no item of the list has a fault.
pub open spec fn all_sound(items: Seq<ItemView>) -> bool {
    forall|i: int| 0 <= i < items.len() ==> fault_of(#[trigger] items[i]).is_none()
}

/// Whether `at` is the place of the first item with a fault.
pub open spec fn first_fault_at(items: Seq<ItemView>, at: int) -> bool {
    &&& 0 <= at < items.len()
    &&& fault_of(items[at]).is_some()
    &&& all_sound(items.take(at))
}

/// Whether `made` is what reading a page with these list items has to give:
/// the film of each item, in the items' order, where no item has a fault, and
/// else the fault of the first item that has one.
pub open spec fn reads_items(
    made: Result<Vec<Film>, LetterboxdError>,
    items: Seq<ItemView>,
) -> bool {
    match made {
        Ok(films) => {
            &&& all_sound(items)
            &&& films@.len() == items.len()
            &&& forall|i: int|
                0 <= i < films@.len() ==> (#[trigger] films@[i])@ == film_of(items[i])
        },
        Err(error) => exists|at: int|
            first_fault_at(items, at) && fault_of(items[at]) == Some(error@),
    }
}

/// Makes the films of one page from its list items, in their order. One
/// item with a fault fails the page, with the fault of the first such item.
pub fn films_from_items(items: Vec<ItemMarkup>) -> (made: Result<Vec<Film>, LetterboxdError>)
    ensures
        reads_items(made, item_views(items@)),
{
    let mut films: Vec<Film> = Vec::new();
    let ghost all = item_views(items@);
    for item in it: items
        invariant
            all == item_views(it.seq()),
            films@.len() == it.index(),
            all_sound(all.take(it.index())),
            forall|i: int| 0 <= i < films@.len() ==> (#[trigger] films@[i])@ == film_of(all[i]),
    {
        let ghost at = it.index();
        assert(all[at] == item@);
        match film_from_markup(item) {
            Ok(film) => {
                films.push(film);
                proof {
                    assert forall|i: int| 0 <= i < at + 1 implies fault_of(
                        #[trigger] all.take(at + 1)[i],
                    ).is_none() by {
                        if i < at {
                            assert(all.take(at)[i] == all[i]);
                        }
                    }
                }
            },
            Err(error) => {
                proof {
                    assert(first_fault_at(all, at));
                }
                return Err(error);
            },
        }
    }
    proof {
        assert(all.take(all.len() as int) =~= all);
    }
    Ok(films)
}

/// The number of pages that a pagination control stands for. `control` is
/// `None` where the page has no control, and else holds the labels of the
/// control's page links in their order. No control means one page; a control
/// without a link is an error; else the last label is the number, which it
/// has to be.
pub open spec fn pages_of(control: Option<Seq<Seq<char>>>) -> Result<usize, Fault> {
    match control {
        None => Ok(1),
        Some(labels) => if labels.len() == 0 {
            Err(Fault::NoPageLink)
        } else {
            match numeral_value(labels.last()) {
                Some(n) => if n <= usize::MAX {
                    Ok(n as usize)
                } else {
                    Err(Fault::BadNumber)
                },
                None => Err(Fault::BadNumber),
            }
        },
    }
}

/// The labels of an optional control.
pub open spec fn control_texts(control: Option<Vec<String>>) -> Option<Seq<Seq<char>>> {
    match control {
        Some(labels) => Some(texts(labels@)),
        None => None,
    }
}

/// Counts the pages of a profile from its pagination control.
pub fn pages_from_control(control: Option<Vec<String>>) -> (pages: Result<usize, LetterboxdError>)
    ensures
        outcome(pages) == pages_of(control_texts(control)),
{
    match control {
        None => Ok(1),
        Some(labels) => {
            if labels.len() == 0 {
                return Err(LetterboxdError::PaginationElementNotFound);
            }
            let last = &labels[labels.len() - 1];
            assert(texts(labels@).last() == last@);
            match parse_usize(last.as_str()) {
                Ok(pages) => Ok(pages),
                Err(error) => Err(LetterboxdError::ParseError(error)),
            }
        },
    }
}

/// The selector that a text compiles to.
pub open spec fn selector(css: Seq<char>) -> Selector {
    compiled(css).unwrap()
}

/// The value that the first of the elements found has for an attribute;
/// `None` where none was found or the first has no such attribute.
pub open spec fn first_attribute(found: Seq<ElementRef>, name: Seq<char>) -> Option<Seq<char>> {
    if found.len() > 0 {
        attribute_value(found[0], name)
    } else {
        None
    }
}

/// The first text in or below an element; empty where it holds none.
pub open spec fn first_text(element: ElementRef) -> Seq<char> {
    if text_nodes(element).len() > 0 {
        text_nodes(element)[0]
    } else {
        Seq::empty()
    }
}

/// What a list item carries: the id and the slug of its first data element,
/// the name and the poster of its first image, and the first text of its
/// first rating marker.
pub open spec fn item_in(movie: ElementRef) -> ItemView {
    let data = matches_in_element(movie, selector("div.react-component"@));
    let image = matches_in_element(movie, selector("img"@));
    let marker = matches_in_element(movie, selector("span.rating"@));
    ItemView {
        film_id: first_attribute(data, "data-film-id"@),
        slug: first_attribute(data, "data-item-slug"@),
        name: first_attribute(image, "alt"@),
        poster: first_attribute(image, "src"@),
        rating: if marker.len() > 0 {
            Some(first_text(marker[0]))
        } else {
            None
        },
    }
}

/// What the list items of a page carry, in the order in which the engine
/// yields them.
pub open spec fn items_in(html: Html) -> Seq<ItemView> {
    let found = matches_in_document(html, selector("li.griditem"@));
    Seq::new(found.len(), |i: int| item_in(found[i]))
}

/// The pagination control of a page: `None` where the page has none, and
/// else the inner text of each page link of the first control, in the order
/// in which the engine yields them.
pub open spec fn control_in(html: Html) -> Option<Seq<Seq<char>>> {
    let controls = matches_in_document(html, selector("div.pagination"@));
    if controls.len() == 0 {
        None
    } else {
        let links = matches_in_element(controls[0], selector("li.paginate-page > a"@));
        Some(Seq::new(links.len(), |i: int| inner_html_text(links[i])))
    }
}

/// Whether `made` is what reading the films of a page body has to give:
/// what `reads_items` asks for the list items of the parsed body, and a
/// failure for a body that is too long to be parsed.
pub open spec fn reads_body(made: Result<Vec<Film>, LetterboxdError>, body: Seq<char>) -> bool {
    if body.len() <= MAX_DOCUMENT_CHARS {
        reads_items(made, items_in(parsed(body)))
    } else {
        made matches Err(error) && error@ == Fault::PageTooLong
    }
}

/// The number of pages that the body of a first page stands for: what
/// `pages_of` makes of the pagination control of the parsed body, and a
/// failure for a body that is too long to be parsed.
pub open spec fn pages_in(body: Seq<char>) -> Result<usize, Fault> {
    if body.len() <= MAX_DOCUMENT_CHARS {
        pages_of(control_in(parsed(body)))
    } else {
        Err(Fault::PageTooLong)
    }
}

/// The selectors by which a profile page is read, compiled once.
pub struct LetterboxdClient {
    pagination: Selector,
    page_link: Selector,
    item: Selector,
    data: Selector,
    image: Selector,
    rating: Selector,
}

/// Whether the engine accepts each of the six selectors.
pub open spec fn selectors_compile() -> bool {
    &&& compiled("div.pagination"@).is_some()
    &&& compiled("li.paginate-page > a"@).is_some()
    &&& compiled("li.griditem"@).is_some()
    &&& compiled("div.react-component"@).is_some()
    &&& compiled("img"@).is_some()
    &&& compiled("span.rating"@).is_some()
}

impl LetterboxdClient {
    /// A client holds what the six selectors compile to.
    #[verifier::type_invariant]
    spec fn holds_the_selectors(self) -> bool {
        &&& compiled("div.pagination"@) == Some(self.pagination)
        &&& compiled("li.paginate-page > a"@) == Some(self.page_link)
        &&& compiled("li.griditem"@) == Some(self.item)
        &&& compiled("div.react-component"@) == Some(self.data)
        &&& compiled("img"@) == Some(self.image)
        &&& compiled("span.rating"@) == Some(self.rating)
    }

    /// Compiles the selectors. `None` means that the engine refused one of
    /// them.
    pub fn new() -> (client: Option<LetterboxdClient>)
        ensures
            client is Some <==> selectors_compile(),
    {
        let pagination = match compile("div.pagination") {
            Some(selector) => selector,
            None => {
                return None;
            },
        };
        let page_link = match compile("li.paginate-page > a") {
            Some(selector) => selector,
            None => {
                return None;
            },
        };
        let item = match compile("li.griditem") {
            Some(selector) => selector,
            None => {
                return None;
            },
        };
        let data = match compile("div.react-component") {
            Some(selector) => selector,
            None => {
                return None;
            },
        };
        let image = match compile("img") {
            Some(selector) => selector,
            None => {
                return None;
            },
        };
        let rating = match compile("span.rating") {
            Some(selector) => selector,
            None => {
                return None;
            },
        };
        Some(LetterboxdClient { pagination, page_link, item, data, image, rating })
    }

    /// Takes out of a list item what `film_from_markup` reads: the two
    /// attributes of its first data element, the two of its first image, and
    /// the first text of its first rating marker.
    fn read_item(&self, movie: &ElementRef) -> (item: ItemMarkup)
        ensures
            item@ == item_in(*movie),
    {
        proof {
            use_type_invariant(self);
        }
        let data = select_in_element(movie, &self.data);
        let (film_id, slug) = if data.len() > 0 {
            (attribute(&data[0], "data-film-id"), attribute(&data[0], "data-item-slug"))
        } else {
            (None, None)
        };
        let image = select_in_element(movie, &self.image);
        let (name, poster) = if image.len() > 0 {
            (attribute(&image[0], "alt"), attribute(&image[0], "src"))
        } else {
            (None, None)
        };
        let marker = select_in_element(movie, &self.rating);
        let rating = if marker.len() > 0 {
            let mut found = texts_of(&marker[0]);
            if found.len() > 0 {
                assert(texts(found@)[0] == found@[0]@);
                Some(found.swap_remove(0))
            } else {
                assert(texts(found@).len() == 0);
                Some(String::new())
            }
        } else {
            None
        };
        ItemMarkup { film_id, slug, name, poster, rating }
    }

    /// Reads one film from its list item: what `film_from_markup` makes of
    /// what the item carries.
    pub fn film_from_elem_ref(&self, movie: &ElementRef) -> (made: Result<Film, LetterboxdError>)
        ensures
            reads_item(made, item_in(*movie)),
    {
        let item = self.read_item(movie);
        film_from_markup(item)
    }

    /// Takes the pagination control out of a page: `None` where the page has
    /// none, else the inner text of each page link of the first control.
    fn read_control(&self, html: &Html) -> (control: Option<Vec<String>>)
        ensures
            control_texts(control) == control_in(*html),
    {
        proof {
            use_type_invariant(self);
        }
        let controls = select_in_document(html, &self.pagination);
        if controls.len() == 0 {
            return None;
        }
        let links = select_in_element(&controls[0], &self.page_link);
        let mut labels: Vec<String> = Vec::new();
        let mut at: usize = 0;
        while at < links.len()
            invariant
                at <= links.len(),
                labels@.len() == at,
                forall|i: int|
                    0 <= i < at ==> (#[trigger] labels@[i])@ == inner_html_text(links@[i]),
            decreases links.len() - at,
        {
            labels.push(links[at].inner_html());
            at += 1;
        }
        proof {
            assert(texts(labels@) =~= Seq::new(
                links@.len(),
                |i: int| inner_html_text(links@[i]),
            ));
        }
        Some(labels)
    }

    /// Counts the pages of a profile from its first page: what
    /// `pages_from_control` makes of the page's pagination control.
    pub fn get_pages(&self, html: &Html) -> (pages: Result<usize, LetterboxdError>)
        ensures
            outcome(pages) == pages_of(control_in(*html)),
    {
        let control = self.read_control(html);
        pages_from_control(control)
    }

    /// Takes the list items out of a page, in the order in which the engine
    /// yields them.
    fn read_items(&self, html: &Html) -> (items: Vec<ItemMarkup>)
        ensures
            item_views(items@) == items_in(*html),
    {
        proof {
            use_type_invariant(self);
        }
        let found = select_in_document(html, &self.item);
        let mut items: Vec<ItemMarkup> = Vec::new();
        let mut at: usize = 0;
        while at < found.len()
            invariant
                at <= found.len(),
                items@.len() == at,
                forall|i: int| 0 <= i < at ==> (#[trigger] items@[i])@ == item_in(found@[i]),
            decreases found.len() - at,
        {
            items.push(self.read_item(&found[at]));
            at += 1;
        }
        proof {
            assert(item_views(items@) =~= items_in(*html));
        }
        items
    }

    /// Counts the pages of a profile from the body of its first page: what
    /// `get_pages` makes of the parsed body. A body of more than
    /// `MAX_DOCUMENT_CHARS` chars is not parsed and fails.
    pub fn pages_from_body(&self, body: &str) -> (pages: Result<usize, LetterboxdError>)
        ensures
            outcome(pages) == pages_in(body@),
    {
        match read_document(body) {
            Some(document) => self.get_pages(&document),
            None => Err(LetterboxdError::PageTooLong),
        }
    }

    /// Reads the films of one page from its body: what `films_from_items`
    /// makes of the list items of the parsed body, that is all the films, or
    /// the first fault. A body of more than `MAX_DOCUMENT_CHARS` chars is
    /// not parsed and fails.
    pub fn get_movies_from_page(&self, body: &str) -> (made: Result<Vec<Film>, LetterboxdError>)
        ensures
            reads_body(made, body@),
    {
        match read_document(body) {
            Some(document) => {
                let items = self.read_items(&document);
                films_from_items(items)
            },
            None => Err(LetterboxdError::PageTooLong),
        }
    }
}

} // verus!
