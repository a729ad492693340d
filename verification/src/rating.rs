//! Half-star ratings and their glyph strings.

use vstd::prelude::*;

verus! {

/// The glyph of one full star.
pub const STAR: char = '★';

/// The glyph of the trailing half star.
pub const HALF: char = '½';

/// A rating in half-star units: 1 is half a star, 10 is five stars.
///
/// A film without a rating carries no `Rating` at all; there is no zero.
#[derive(Copy, Clone, Debug, PartialEq, Eq, Structural, PartialOrd, Ord)]
pub struct Rating(pub u8);

/// Why a string is not the glyph string of a rating.
#[derive(Debug)]
pub enum RatingError {
    /// The string is none of the ten glyph strings; it is handed back.
    UnknownGlyph(String),
}

/// The glyph string of `half_stars` half stars: one star for every two,
/// followed by the half-star glyph when the count is odd.
pub open spec fn glyphs(half_stars: int) -> Seq<char> {
    let stars = Seq::new((half_stars / 2) as nat, |i: int| STAR);
    if half_stars % 2 == 1 {
        stars.push(HALF)
    } else {
        stars
    }
}

/// What is shown for a value outside the scale.
pub open spec fn no_rating_text() -> Seq<char> {
    "no rating"@
}

/// The rating that a glyph string stands for, if it stands for one.
pub open spec fn rating_of_glyphs(text: Seq<char>) -> Option<Rating> {
    if exists|v: u8| 1 <= v <= 10 && #[trigger] glyphs(v as int) == text {
        Some(Rating(choose|v: u8| 1 <= v <= 10 && #[trigger] glyphs(v as int) == text))
    } else {
        None
    }
}

impl Rating {
    /// The number of half stars.
    pub open spec fn half_stars(self) -> int {
        self.0 as int
    }

    /// Whether the value lies on the scale from half a star to five stars.
    pub open spec fn on_scale(self) -> bool {
        1 <= self.0 <= 10
    }

    /// The text that `to_display_string` produces.
    pub open spec fn display(self) -> Seq<char> {
        if self.on_scale() {
            glyphs(self.0 as int)
        } else {
            no_rating_text()
        }
    }

    /// Renders the rating as stars; a value off the scale renders as
    /// `no rating`.
    pub fn to_display_string(&self) -> (text: String)
        ensures
            text@ == self.display(),
    {
        let star: &str = match self.0 {
            1 => "½",
            2 => "★",
            3 => "★½",
            4 => "★★",
            5 => "★★½",
            6 => "★★★",
            7 => "★★★½",
            8 => "★★★★",
            9 => "★★★★½",
            10 => "★★★★★",
            _ => "no rating",
        };
        proof {
            reveal_strlit("½");
            reveal_strlit("★");
            reveal_strlit("★½");
            reveal_strlit("★★");
            reveal_strlit("★★½");
            reveal_strlit("★★★");
            reveal_strlit("★★★½");
            reveal_strlit("★★★★");
            reveal_strlit("★★★★½");
            reveal_strlit("★★★★★");
            assert(star@ =~= self.display());
        }
        String::from_str(star)
    }

    /// Reads a rating from its glyph string. Any text that is not one of the
    /// ten glyph strings, the empty string included, is an unknown glyph.
    pub fn from_display_string(text: &str) -> (parsed: Result<Rating, RatingError>)
        ensures
            match parsed {
                Ok(rating) => rating_of_glyphs(text@) == Some(rating),
                Err(RatingError::UnknownGlyph(given)) => rating_of_glyphs(text@).is_none()
                    && given@ == text@,
            },
    {
        let len = text.unicode_len();
        if len == 0 || len > 5 {
            proof {
                lemma_off_length(text@);
            }
            return Err(RatingError::UnknownGlyph(String::from_str(text)));
        }
        let mut stars: usize = 0;
        while stars < len && text.get_char(stars) == STAR
            invariant
                stars <= len,
                len == text@.len(),
                forall|i: int| 0 <= i < stars ==> text@[i] == STAR,
            decreases len - stars,
        {
            stars += 1;
        }
        if stars == len {
            let value: u8 = (2 * stars) as u8;
            proof {
                assert(text@ =~= glyphs(value as int));
                lemma_reads_back(value, text@);
            }
            Ok(Rating(value))
        } else if stars + 1 == len && text.get_char(stars) == HALF {
            let value: u8 = (2 * stars + 1) as u8;
            proof {
                assert(text@ =~= glyphs(value as int));
                lemma_reads_back(value, text@);
            }
            Ok(Rating(value))
        } else {
            proof {
                assert forall|v: u8| 1 <= v <= 10 implies #[trigger] glyphs(v as int) != text@ by {
                    if glyphs(v as int) == text@ {
                        let full = v as int / 2;
                        if stars < full {
                            assert(glyphs(v as int)[stars as int] == STAR);
                        } else if stars > full {
                            assert(text@[full] == STAR);
                        }
                    }
                }
            }
            Err(RatingError::UnknownGlyph(String::from_str(text)))
        }
    }
}

impl From<usize> for Rating {
    /// Takes the low eight bits of `half_stars` as the rating's value.
    fn from(half_stars: usize) -> (rating: Rating) {
        Rating(half_stars as u8)
    }
}

impl vstd::std_specs::convert::FromSpecImpl<usize> for Rating {
    open spec fn obeys_from_spec() -> bool {
        true
    }

    open spec fn from_spec(half_stars: usize) -> Rating {
        Rating(half_stars as u8)
    }
}

/// Two counts with the same glyph string are the same count.
pub proof fn lemma_glyphs_injective(a: int, b: int)
    requires
        0 <= a,
        0 <= b,
        glyphs(a) == glyphs(b),
    ensures
        a == b,
{
    assert(glyphs(a).len() == a / 2 + a % 2);
    assert(glyphs(b).len() == b / 2 + b % 2);
    if a != b {
        if a % 2 == 1 {
            assert(glyphs(a)[a / 2] == HALF);
            assert(glyphs(b)[a / 2] == STAR);
        } else {
            assert(glyphs(b)[b / 2] == HALF);
            assert(glyphs(a)[b / 2] == STAR);
        }
    }
}

/// A text that is the glyph string of `value` reads back as `value`.
proof fn lemma_reads_back(value: u8, text: Seq<char>)
    requires
        1 <= value <= 10,
        glyphs(value as int) == text,
    ensures
        rating_of_glyphs(text) == Some(Rating(value)),
{
    let chosen = choose|v: u8| 1 <= v <= 10 && #[trigger] glyphs(v as int) == text;
    lemma_glyphs_injective(chosen as int, value as int);
}

/// No rating on the scale has an empty glyph string or one of more than
/// five glyphs.
proof fn lemma_off_length(text: Seq<char>)
    requires
        text.len() == 0 || text.len() > 5,
    ensures
        rating_of_glyphs(text).is_none(),
{
    assert forall|v: u8| 1 <= v <= 10 implies #[trigger] glyphs(v as int) != text by {
        assert(glyphs(v as int).len() == v as int / 2 + v as int % 2);
    }
}

/// Reading the glyph string that a rating on the scale is displayed as gives
/// back that rating.
pub proof fn lemma_display_round_trip(rating: Rating)
    requires
        rating.on_scale(),
    ensures
        rating_of_glyphs(rating.display()) == Some(rating),
{
    lemma_reads_back(rating.0, rating.display());
}

/// A text that reads as a rating is exactly what that rating is displayed
/// as, and the rating lies on the scale.
pub proof fn lemma_read_is_displayed(text: Seq<char>, rating: Rating)
    requires
        rating_of_glyphs(text) == Some(rating),
    ensures
        rating.on_scale(),
        rating.display() == text,
{
}

} // verus!
