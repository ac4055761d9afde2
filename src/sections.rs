//! The sections of the site and the URL paths that lead to them.
use vstd::prelude::*;

use crate::decimal::{decimal, lemma_parse_decimal, parse_unsigned, parse_unsigned_str, push_decimal};
use crate::text::{join, push_joined, str_eq, views};

verus! {

/// The date under which a blog entry is published.
#[derive(Clone, Copy, Debug, PartialEq, Eq, Hash, Structural)]
pub struct BlogDate {
    pub year: u64,
    pub month: u8,
    pub day: u8,
}

/// The section of the site that is shown.
#[derive(Clone, Copy, Debug, PartialEq, Eq, Structural)]
pub enum ActiveSection {
    AboutMe,
    PasswordGenerator,
    /// The blog: its index when no date is given, else the entry of that date.
    Blog(Option<BlogDate>),
}

/// Why a path could not be mapped to a section.
#[derive(Debug, PartialEq, Eq)]
pub enum RouteError {
    /// The segments match no known section; they are handed back as given.
    UnknownRoute(Vec<String>),
}

pub open spec fn about_me_page() -> Seq<char> {
    "about_me.html"@
}

pub open spec fn password_generator_page() -> Seq<char> {
    "password_generator.html"@
}

pub open spec fn blog_page() -> Seq<char> {
    "blog.html"@
}

pub open spec fn blog_dir() -> Seq<char> {
    "blog"@
}

pub open spec fn index_page() -> Seq<char> {
    "index.html"@
}

/// The path segments that lead to a section.
pub open spec fn segments_of(section: ActiveSection) -> Seq<Seq<char>> {
    match section {
        ActiveSection::AboutMe => seq![about_me_page()],
        ActiveSection::PasswordGenerator => seq![password_generator_page()],
        ActiveSection::Blog(None) => seq![blog_page()],
        ActiveSection::Blog(Some(date)) => seq![
            blog_dir(),
            decimal(date.year as nat),
            decimal(date.month as nat),
            decimal(date.day as nat),
            index_page(),
        ],
    }
}

/// The absolute path of a section: a `/` before each segment.
pub open spec fn path_of(section: ActiveSection) -> Seq<char> {
    seq!['/'] + join(segments_of(section), '/')
}

/// Whether the segments have the shape of one of the site's routes.
pub open spec fn is_route(segments: Seq<Seq<char>>) -> bool {
    ||| segments == seq![about_me_page()]
    ||| segments == seq![password_generator_page()]
    ||| segments == seq![blog_page()]
    ||| (segments.len() == 5 && segments[0] == blog_dir() && segments[4] == index_page())
}

/// The date that three numerals give, when each is a number of its field's range.
pub open spec fn blog_date_of(year: Seq<char>, month: Seq<char>, day: Seq<char>) -> Option<
    BlogDate,
> {
    match (
        parse_unsigned(year, u64::MAX as nat),
        parse_unsigned(month, u8::MAX as nat),
        parse_unsigned(day, u8::MAX as nat),
    ) {
        (Some(y), Some(m), Some(d)) => Some(BlogDate { year: y as u64, month: m as u8, day: d as u8 }),
        _ => None,
    }
}

/// The section that a route leads to. A blog entry route whose date does
/// not read as numbers leads to the blog's index.
pub open spec fn section_of(segments: Seq<Seq<char>>) -> ActiveSection
    recommends
        is_route(segments),
{
    if segments == seq![about_me_page()] {
        ActiveSection::AboutMe
    } else if segments == seq![password_generator_page()] {
        ActiveSection::PasswordGenerator
    } else if segments == seq![blog_page()] {
        ActiveSection::Blog(None)
    } else {
        ActiveSection::Blog(blog_date_of(segments[1], segments[2], segments[3]))
    }
}

/// Reads a blog date from its three numerals; `None` when one of them is not
/// a number of its field's range.
pub fn parse_blog_date(year: &str, month: &str, day: &str) -> (r: Option<BlogDate>)
    ensures
        r == blog_date_of(year@, month@, day@),
{
    let year = match parse_unsigned_str(year, u64::MAX) {
        Some(v) => v,
        None => return None,
    };
    let month = match parse_unsigned_str(month, u8::MAX as u64) {
        Some(v) => v as u8,
        None => return None,
    };
    let day = match parse_unsigned_str(day, u8::MAX as u64) {
        Some(v) => v as u8,
        None => return None,
    };
    Some(BlogDate { year, month, day })
}


/// The segments of each of the given sections, in order.
pub open spec fn routes_of(sections: Seq<ActiveSection>) -> Seq<Seq<Seq<char>>> {
    sections.map_values(|s: ActiveSection| segments_of(s))
}

/// The views of a list of routes.
pub open spec fn route_views(routes: Seq<Vec<String>>) -> Seq<Seq<Seq<char>>> {
    routes.map_values(|v: Vec<String>| views(v@))
}

impl BlogDate {
    /// The date written as `year/month/day`.
    pub fn to_string(&self) -> (r: String)
        ensures
            r@ == decimal(self.year as nat) + seq!['/'] + decimal(self.month as nat) + seq!['/']
                + decimal(self.day as nat),
    {
        let mut r = String::new();
        push_decimal(&mut r, self.year);
        r.push('/');
        push_decimal(&mut r, self.month as u64);
        r.push('/');
        push_decimal(&mut r, self.day as u64);
        r
    }
}

impl ActiveSection {
    /// The routes of the sections that do not depend on a blog date.
    pub fn all_routes() -> (r: Vec<Vec<String>>)
        ensures
            route_views(r@) == routes_of(
                seq![
                    ActiveSection::AboutMe,
                    ActiveSection::PasswordGenerator,
                    ActiveSection::Blog(None),
                ],
            ),
    {
        let r = vec![
            ActiveSection::AboutMe.to_segments(),
            ActiveSection::PasswordGenerator.to_segments(),
            ActiveSection::Blog(None).to_segments(),
        ];
        assert(route_views(r@) =~= routes_of(
            seq![
                ActiveSection::AboutMe,
                ActiveSection::PasswordGenerator,
                ActiveSection::Blog(None),
            ],
        ));
        r
    }

    /// The routes of the sections whose pages are rendered ahead of time.
    pub fn all_static_routes() -> (r: Vec<Vec<String>>)
        ensures
            route_views(r@) == routes_of(seq![ActiveSection::AboutMe, ActiveSection::Blog(None)]),
    {
        let r = vec![ActiveSection::AboutMe.to_segments(), ActiveSection::Blog(None).to_segments()];
        assert(route_views(r@) =~= routes_of(
            seq![ActiveSection::AboutMe, ActiveSection::Blog(None)],
        ));
        r
    }

    /// The path segments that lead to this section.
    pub fn to_segments(self) -> (r: Vec<String>)
        ensures
            views(r@) == segments_of(self),
    {
        let r = match self {
            ActiveSection::AboutMe => vec![String::from_str("about_me.html")],
            ActiveSection::PasswordGenerator => vec![String::from_str("password_generator.html")],
            ActiveSection::Blog(None) => vec![String::from_str("blog.html")],
            ActiveSection::Blog(Some(date)) => {
                let mut year = String::new();
                push_decimal(&mut year, date.year);
                let mut month = String::new();
                push_decimal(&mut month, date.month as u64);
                let mut day = String::new();
                push_decimal(&mut day, date.day as u64);
                vec![
                    String::from_str("blog"),
                    year,
                    month,
                    day,
                    String::from_str("index.html"),
                ]
            },
        };
        assert(views(r@) =~= segments_of(self));
        r
    }

    /// The absolute path of this section, such as `/blog/2024/1/5/index.html`.
    pub fn to_path(self) -> (r: String)
        ensures
            r@ == path_of(self),
    {
        let mut r = String::new();
        r.push('/');
        let segments = self.to_segments();
        push_joined(&mut r, &segments, '/');
        r
    }

    /// The section that the path segments lead to.
    pub fn resolve(values: &[String]) -> (r: Result<ActiveSection, RouteError>)
        ensures
            is_route(views(values@)) ==> r == Ok::<ActiveSection, RouteError>(
                section_of(views(values@)),
            ),
            !is_route(views(values@)) ==> (r matches Err(RouteError::UnknownRoute(v)) && views(v@)
                == views(values@)),
    {
        let ghost segs = views(values@);
        let n = values.len();
        if n == 1 {
            let only = values[0].as_str();
            assert(segs[0] == only@);
            if str_eq(only, "about_me.html") {
                assert(segs =~= seq![about_me_page()]);
                return Ok(ActiveSection::AboutMe);
            }
            if str_eq(only, "password_generator.html") {
                assert(segs =~= seq![password_generator_page()]);
                return Ok(ActiveSection::PasswordGenerator);
            }
            if str_eq(only, "blog.html") {
                assert(segs =~= seq![blog_page()]);
                return Ok(ActiveSection::Blog(None));
            }
        } else if n == 5 && str_eq(values[0].as_str(), "blog") && str_eq(
            values[4].as_str(),
            "index.html",
        ) {
            assert(segs.len() == 5);
            return Ok(
                ActiveSection::Blog(
                    parse_blog_date(values[1].as_str(), values[2].as_str(), values[3].as_str()),
                ),
            );
        }
        let mut copy: Vec<String> = Vec::new();
        let mut i: usize = 0;
        while i < n
            invariant
                n == values@.len(),
                i <= n,
                copy@.len() == i,
                forall|j: int| 0 <= j < i ==> copy@[j]@ == values@[j]@,
            decreases n - i,
        {
            copy.push(values[i].clone());
            i = i + 1;
        }
        assert(views(copy@) =~= views(values@));
        Err(RouteError::UnknownRoute(copy))
    }
}

/// The paths of the pages rendered ahead of time: those of the static
/// routes, then the root.
pub fn static_routes() -> (r: Vec<String>)
    ensures
        views(r@) == seq![
            path_of(ActiveSection::AboutMe),
            path_of(ActiveSection::Blog(None)),
            seq!['/'],
        ],
{
    let routes = ActiveSection::all_static_routes();
    assert(route_views(routes@).len() == routes@.len());
    let mut r: Vec<String> = Vec::new();
    let mut i: usize = 0;
    while i < routes.len()
        invariant
            i <= routes@.len(),
            routes@.len() == 2,
            route_views(routes@) == routes_of(seq![ActiveSection::AboutMe, ActiveSection::Blog(None)]),
            r@.len() == i,
            forall|j: int| 0 <= j < i ==> #[trigger] r@[j]@ == seq!['/'] + join(views(routes@[j]@), '/'),
        decreases routes@.len() - i,
    {
        let mut path = String::new();
        path.push('/');
        push_joined(&mut path, &routes[i], '/');
        r.push(path);
        i = i + 1;
    }
    let mut root = String::new();
    root.push('/');
    r.push(root);
    assert(route_views(routes@)[0] == views(routes@[0]@));
    assert(route_views(routes@)[1] == views(routes@[1]@));
    assert(views(r@) =~= seq![
        path_of(ActiveSection::AboutMe),
        path_of(ActiveSection::Blog(None)),
        seq!['/'],
    ]);
    r
}

/// An entry of the title bar: a section, its label, and whether it is the
/// section shown.
#[derive(Debug, PartialEq, Eq)]
pub struct TitleEntry {
    pub name: String,
    pub section: ActiveSection,
    pub active: bool,
}

impl TitleEntry {
    /// The entry of `section`, active when it is the section shown.
    pub fn new(name: &str, section: ActiveSection, active: ActiveSection) -> (r: TitleEntry)
        ensures
            r.name@ == name@,
            r.section == section,
            r.active == (section == active),
    {
        TitleEntry { name: String::from_str(name), section, active: section == active }
    }
}

/// Resolving the segments of any section gives that section back.
pub proof fn lemma_resolve_segments(section: ActiveSection)
    ensures
        is_route(segments_of(section)),
        section_of(segments_of(section)) == section,
{
    reveal_strlit("about_me.html");
    reveal_strlit("password_generator.html");
    reveal_strlit("blog.html");
    let segments = segments_of(section);
    match section {
        ActiveSection::AboutMe => {},
        ActiveSection::PasswordGenerator => {
            assert(segments[0].len() != about_me_page().len());
        },
        ActiveSection::Blog(None) => {
            assert(segments[0].len() != about_me_page().len());
            assert(segments[0].len() != password_generator_page().len());
        },
        ActiveSection::Blog(Some(date)) => {
            lemma_parse_decimal(date.year as nat, u64::MAX as nat);
            lemma_parse_decimal(date.month as nat, u8::MAX as nat);
            lemma_parse_decimal(date.day as nat, u8::MAX as nat);
            assert(segments.len() == 5);
        },
    }
}

} // verus!
