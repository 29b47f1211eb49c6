//! How a server lists itself in discovery, within Discord's documented caps.
use vstd::prelude::*;

use crate::json::{entries, items_model, obj_get, put, Json, JsonValue};
use crate::rest::channel_management::{truncate, truncated};
use crate::text::{char_count, concat3, decimal, decimal_string, join, join_seq, owned, views};

verus! {

/// Discord's caps on discovery metadata.
pub const MAX_DISCOVERY_KEYWORDS: usize = 10;
pub const MAX_DISCOVERY_KEYWORD_CHARS: usize = 30;
/// Subcategories, not counting the primary one.
pub const MAX_DISCOVERY_SUBCATEGORIES: usize = 5;
pub const MAX_DISCOVERY_ABOUT_CHARS: usize = 2400;

/// One category a server can list itself under.
#[derive(Clone, Debug, PartialEq, Eq)]
pub struct DiscoveryCategory {
    pub id: u32,
    pub name: String,
    /// Whether it may be the primary category.
    pub is_primary: bool,
}

/// A server's discovery settings.
#[derive(Clone, Debug, PartialEq, Eq)]
pub struct DiscoveryMetadata {
    pub primary_category_id: Option<u32>,
    pub keywords: Vec<String>,
    /// Whether the server is offered as a source of its custom emoji.
    pub emoji_discoverability_enabled: bool,
    pub about: Option<String>,
    pub category_ids: Vec<u32>,
}

impl Default for DiscoveryMetadata {
    fn default() -> (m: Self)
        ensures
            m.primary_category_id is None,
            m.keywords@.len() == 0,
            !m.emoji_discoverability_enabled,
            m.about is None,
            m.category_ids@.len() == 0,
    {
        DiscoveryMetadata {
            primary_category_id: None,
            keywords: Vec::new(),
            emoji_discoverability_enabled: false,
            about: None,
            category_ids: Vec::new(),
        }
    }
}

/// Why the metadata cannot be saved yet.
#[derive(Clone, Copy, Debug, PartialEq, Eq, Structural)]
pub enum DiscoveryMetadataProblem {
    TooManyKeywords,
    KeywordTooLong,
    TooManySubcategories,
    AboutTooLong,
}

pub open spec fn problem_message(p: DiscoveryMetadataProblem) -> Seq<char> {
    match p {
        DiscoveryMetadataProblem::TooManyKeywords => "At most "@ + decimal(MAX_DISCOVERY_KEYWORDS as nat) + " keywords"@,
        DiscoveryMetadataProblem::KeywordTooLong => "A keyword is at most "@ + decimal(MAX_DISCOVERY_KEYWORD_CHARS as nat)
            + " characters"@,
        DiscoveryMetadataProblem::TooManySubcategories => "At most "@ + decimal(MAX_DISCOVERY_SUBCATEGORIES as nat)
            + " extra categories"@,
        DiscoveryMetadataProblem::AboutTooLong => "The description is at most "@ + decimal(MAX_DISCOVERY_ABOUT_CHARS as nat)
            + " characters"@,
    }
}

impl DiscoveryMetadataProblem {
    pub fn message(self) -> (s: String)
        ensures
            s@ == problem_message(self),
    {
        match self {
            DiscoveryMetadataProblem::TooManyKeywords => concat3(
                "At most ",
                decimal_string(MAX_DISCOVERY_KEYWORDS as u64).as_str(),
                " keywords",
            ),
            DiscoveryMetadataProblem::KeywordTooLong => concat3(
                "A keyword is at most ",
                decimal_string(MAX_DISCOVERY_KEYWORD_CHARS as u64).as_str(),
                " characters",
            ),
            DiscoveryMetadataProblem::TooManySubcategories => concat3(
                "At most ",
                decimal_string(MAX_DISCOVERY_SUBCATEGORIES as u64).as_str(),
                " extra categories",
            ),
            DiscoveryMetadataProblem::AboutTooLong => concat3(
                "The description is at most ",
                decimal_string(MAX_DISCOVERY_ABOUT_CHARS as u64).as_str(),
                " characters",
            ),
        }
    }
}

/// The first cap the metadata breaks, in the order Discord's form lists them.
pub open spec fn metadata_problem(m: DiscoveryMetadata) -> Option<DiscoveryMetadataProblem> {
    if m.keywords@.len() > MAX_DISCOVERY_KEYWORDS {
        Some(DiscoveryMetadataProblem::TooManyKeywords)
    } else if exists|i: int| 0 <= i < m.keywords@.len() && (#[trigger] m.keywords@[i])@.len() > MAX_DISCOVERY_KEYWORD_CHARS {
        Some(DiscoveryMetadataProblem::KeywordTooLong)
    } else if m.category_ids@.len() > MAX_DISCOVERY_SUBCATEGORIES {
        Some(DiscoveryMetadataProblem::TooManySubcategories)
    } else if m.about matches Some(a) && a@.len() > MAX_DISCOVERY_ABOUT_CHARS {
        Some(DiscoveryMetadataProblem::AboutTooLong)
    } else {
        None
    }
}

/// "listed" or why not, then the keyword count, then emoji discoverability.
pub open spec fn metadata_summary(m: DiscoveryMetadata) -> Seq<char> {
    let a: Seq<Seq<char>> = seq![
        if m.primary_category_id is Some { "listed"@ } else { "no primary category - not listed"@ },
        if m.keywords@.len() == 0 {
            "no keywords"@
        } else if m.keywords@.len() == 1 {
            "1 keyword"@
        } else {
            decimal(m.keywords@.len()) + " keywords"@
        },
    ];
    join_seq(if m.emoji_discoverability_enabled { a.push("findable by its emoji"@) } else { a }, " - "@)
}

pub open spec fn min_nat(a: nat, b: nat) -> nat {
    if a <= b { a } else { b }
}

/// Every field, since this endpoint replaces rather than merges: keywords
/// and categories cut to their caps, each keyword and the description cut
/// to their character caps, absent values as null.
pub open spec fn metadata_field(m: DiscoveryMetadata, k: Seq<char>) -> Option<Json> {
    if k == "category_ids"@ {
        Some(Json::Array(Seq::new(
            min_nat(m.category_ids@.len(), MAX_DISCOVERY_SUBCATEGORIES as nat),
            |i: int| Json::Num(m.category_ids@[i] as int),
        )))
    } else if k == "about"@ {
        Some(
            match m.about {
                Some(a) => Json::Str(truncated(a@, MAX_DISCOVERY_ABOUT_CHARS as nat)),
                None => Json::Null,
            },
        )
    } else if k == "emoji_discoverability_enabled"@ {
        Some(Json::Bool(m.emoji_discoverability_enabled))
    } else if k == "keywords"@ {
        Some(Json::Array(Seq::new(
            min_nat(m.keywords@.len(), MAX_DISCOVERY_KEYWORDS as nat),
            |i: int| Json::Str(truncated(m.keywords@[i]@, MAX_DISCOVERY_KEYWORD_CHARS as nat)),
        )))
    } else if k == "primary_category_id"@ {
        Some(
            match m.primary_category_id {
                Some(id) => Json::Num(id as int),
                None => Json::Null,
            },
        )
    } else {
        None
    }
}

impl DiscoveryMetadata {
    /// Why this cannot be saved, or `None` when it can.
    pub fn problem(&self) -> (p: Option<DiscoveryMetadataProblem>)
        ensures
            p == metadata_problem(*self),
    {
        if self.keywords.len() > MAX_DISCOVERY_KEYWORDS {
            return Some(DiscoveryMetadataProblem::TooManyKeywords);
        }
        let n = self.keywords.len();
        let mut i: usize = 0;
        while i < n
            invariant
                n == self.keywords@.len(),
                n <= MAX_DISCOVERY_KEYWORDS,
                i <= n,
                forall|k: int| 0 <= k < i ==> (#[trigger] self.keywords@[k])@.len() <= MAX_DISCOVERY_KEYWORD_CHARS,
            decreases n - i,
        {
            if char_count(self.keywords[i].as_str()) > MAX_DISCOVERY_KEYWORD_CHARS {
                assert((self.keywords@[i as int])@.len() > MAX_DISCOVERY_KEYWORD_CHARS);
                return Some(DiscoveryMetadataProblem::KeywordTooLong);
            }
            i = i + 1;
        }
        if self.category_ids.len() > MAX_DISCOVERY_SUBCATEGORIES {
            return Some(DiscoveryMetadataProblem::TooManySubcategories);
        }
        if let Some(about) = &self.about {
            if char_count(about.as_str()) > MAX_DISCOVERY_ABOUT_CHARS {
                return Some(DiscoveryMetadataProblem::AboutTooLong);
            }
        }
        None
    }

    /// How the panel reads it back.
    pub fn summary(&self) -> (s: String)
        ensures
            s@ == metadata_summary(*self),
    {
        let mut parts: Vec<String> = Vec::new();
        parts.push(
            match self.primary_category_id {
                Some(_) => owned("listed"),
                None => owned("no primary category - not listed"),
            },
        );
        let count = self.keywords.len();
        parts.push(
            if count == 0 {
                owned("no keywords")
            } else if count == 1 {
                owned("1 keyword")
            } else {
                let mut c = decimal_string(count as u64);
                crate::text::push_str(&mut c, " keywords");
                c
            },
        );
        if self.emoji_discoverability_enabled {
            parts.push(owned("findable by its emoji"));
        }
        assert(views(parts@) =~= {
            let a: Seq<Seq<char>> = seq![parts@[0]@, parts@[1]@];
            if self.emoji_discoverability_enabled { a.push("findable by its emoji"@) } else { a }
        });
        join(&parts, " - ")
    }

    /// The request body, every field present.
    pub fn to_body(&self) -> (body: JsonValue)
        ensures
            body.model() is Object,
            forall|k: Seq<char>| #[trigger] obj_get(entries(body.model()), k) == metadata_field(*self, k),
    {
        let mut fields: Vec<(String, JsonValue)> = Vec::new();
        put(
            &mut fields,
            "primary_category_id",
            match self.primary_category_id {
                Some(id) => JsonValue::UInt(id as u64),
                None => JsonValue::Null,
            },
        );
        let mut keywords: Vec<JsonValue> = Vec::new();
        let kn = if self.keywords.len() < MAX_DISCOVERY_KEYWORDS { self.keywords.len() } else { MAX_DISCOVERY_KEYWORDS };
        let mut i: usize = 0;
        while i < kn
            invariant
                kn <= self.keywords@.len(),
                i <= kn,
                items_model(keywords@) == Seq::new(
                    i as nat,
                    |j: int| Json::Str(truncated(self.keywords@[j]@, MAX_DISCOVERY_KEYWORD_CHARS as nat)),
                ),
            decreases kn - i,
        {
            crate::json::push_item(&mut keywords, JsonValue::Str(truncate(self.keywords[i].as_str(), MAX_DISCOVERY_KEYWORD_CHARS)));
            assert(items_model(keywords@) =~= Seq::new(
                (i + 1) as nat,
                |j: int| Json::Str(truncated(self.keywords@[j]@, MAX_DISCOVERY_KEYWORD_CHARS as nat)),
            ));
            i = i + 1;
        }
        put(&mut fields, "keywords", JsonValue::Array(keywords));
        put(&mut fields, "emoji_discoverability_enabled", JsonValue::Bool(self.emoji_discoverability_enabled));
        put(
            &mut fields,
            "about",
            match &self.about {
                Some(about) => JsonValue::Str(truncate(about.as_str(), MAX_DISCOVERY_ABOUT_CHARS)),
                None => JsonValue::Null,
            },
        );
        let mut ids: Vec<JsonValue> = Vec::new();
        let cn = if self.category_ids.len() < MAX_DISCOVERY_SUBCATEGORIES {
            self.category_ids.len()
        } else {
            MAX_DISCOVERY_SUBCATEGORIES
        };
        let mut i: usize = 0;
        while i < cn
            invariant
                cn <= self.category_ids@.len(),
                i <= cn,
                items_model(ids@) == Seq::new(i as nat, |j: int| Json::Num(self.category_ids@[j] as int)),
            decreases cn - i,
        {
            crate::json::push_item(&mut ids, JsonValue::UInt(self.category_ids[i] as u64));
            assert(items_model(ids@) =~= Seq::new((i + 1) as nat, |j: int| Json::Num(self.category_ids@[j] as int)));
            i = i + 1;
        }
        put(&mut fields, "category_ids", JsonValue::Array(ids));
        JsonValue::Object(fields)
    }
}

/// A server's discovery settings as Discord sends them.
pub struct MetadataBody {
    pub primary_category_id: Option<u32>,
    pub keywords: Option<Vec<String>>,
    pub emoji_discoverability_enabled: bool,
    pub about: Option<String>,
    pub category_ids: Vec<u32>,
}

/// The settings a body describes: null and absent keywords both mean none,
/// and an empty description is none.
pub fn metadata_from_body(body: MetadataBody) -> (m: DiscoveryMetadata)
    ensures
        m.primary_category_id == body.primary_category_id,
        m.keywords@ == match body.keywords {
            Some(k) => k@,
            None => Seq::empty(),
        },
        m.emoji_discoverability_enabled == body.emoji_discoverability_enabled,
        m.about.deep_view() == match body.about {
            Some(a) => if a@.len() > 0 { Some(a@) } else { None },
            None => None,
        },
        m.category_ids@ == body.category_ids@,
{
    let about = match body.about {
        Some(a) => if a.unicode_len() > 0 { Some(a) } else { None },
        None => None,
    };
    DiscoveryMetadata {
        primary_category_id: body.primary_category_id,
        keywords: match body.keywords {
            Some(k) => k,
            None => Vec::new(),
        },
        emoji_discoverability_enabled: body.emoji_discoverability_enabled,
        about,
        category_ids: body.category_ids,
    }
}


/// A discovery category as Discord sends it.
pub struct CategoryBody {
    pub id: Option<u32>,
    pub name: Option<String>,
    pub is_primary: bool,
}

pub open spec fn category_view(c: DiscoveryCategory) -> (u32, Seq<char>, bool) {
    (c.id, c.name@, c.is_primary)
}

/// The categories that have ids, in order: without one there is nothing
/// to select.
pub open spec fn categories_of(bs: Seq<CategoryBody>) -> Seq<(u32, Seq<char>, bool)>
    decreases bs.len(),
{
    if bs.len() == 0 {
        Seq::empty()
    } else {
        let rest = categories_of(bs.drop_last());
        match bs.last().id {
            Some(id) => rest.push((
                id,
                match bs.last().name {
                    Some(n) => n@,
                    None => Seq::empty(),
                },
                bs.last().is_primary,
            )),
            None => rest,
        }
    }
}

pub fn categories_from_body(bodies: &Vec<CategoryBody>) -> (c: Vec<DiscoveryCategory>)
    ensures
        c@.map_values(|x: DiscoveryCategory| category_view(x)) == categories_of(bodies@),
{
    let mut out: Vec<DiscoveryCategory> = Vec::new();
    let n = bodies.len();
    let mut i: usize = 0;
    proof {
        assert(bodies@.take(0) =~= Seq::<CategoryBody>::empty());
        assert(out@.map_values(|x: DiscoveryCategory| category_view(x)) =~= Seq::empty());
    }
    while i < n
        invariant
            n == bodies@.len(),
            i <= n,
            out@.map_values(|x: DiscoveryCategory| category_view(x)) == categories_of(bodies@.take(i as int)),
        decreases n - i,
    {
        proof {
            assert(bodies@.take(i + 1).drop_last() =~= bodies@.take(i as int));
            assert(bodies@.take(i + 1).last() == bodies@[i as int]);
        }
        if let Some(id) = bodies[i].id {
            let category = DiscoveryCategory {
                id,
                name: match &bodies[i].name {
                    Some(n) => owned(n.as_str()),
                    None => String::new(),
                },
                is_primary: bodies[i].is_primary,
            };
            let ghost before = out@;
            out.push(category);
            proof {
                assert(out@.map_values(|x: DiscoveryCategory| category_view(x)) =~= before.map_values(|x: DiscoveryCategory| category_view(x)).push(category_view(category)));
            }
        }
        i = i + 1;
    }
    proof {
        assert(bodies@.take(n as int) =~= bodies@);
    }
    out
}

} // verus!
