//! A dataset of location records: loading a prior export, merging newly
//! found files into it, the thumbnail pass, and rendering.
use vstd::prelude::*;
use crate::document::{field_of, get_field, is_text, text_of, Json, KmlElement};
use crate::location::{
    enriched, feature_view, geojson_text, instant_of, kml_text, kml_view, opt_bytes,
    FileLocation, LocationView,
};

verus! {

/// Why a prior dataset could not be loaded.
#[derive(Debug, PartialEq, Eq)]
pub enum LoadError {
    /// The JSON document is no feature collection with a `features` array.
    NotFeatureCollection,
    /// The KML text is not a KML document.
    NotKmlDocument,
    /// The KML document holds no placemark that yields a record.
    NoKmlResults,
    /// Neither format could be read.
    UnknownFormat,
}

/// Why a dataset could not be rendered.
#[derive(Debug, PartialEq, Eq)]
pub enum OutputError {
    /// The format name, normalised, is neither `kml` nor `geojson`.
    UnknownFormat(String),
}

/// The records of a run, in order, with an optional inclusive window
/// (instants in seconds) for records that are added.
#[derive(Debug)]
pub struct FileSet {
    file_locations: Vec<FileLocation>,
    before: Option<i64>,
    after: Option<i64>,
}

pub open spec fn views(v: Seq<FileLocation>) -> Seq<LocationView> {
    v.map_values(|l: FileLocation| l@)
}

pub open spec fn text_views(v: Seq<String>) -> Seq<Seq<char>> {
    v.map_values(|s: String| s@)
}

pub open spec fn jpeg_views(j: Seq<Option<Vec<u8>>>) -> Seq<Option<Seq<u8>>> {
    j.map_values(|o: Option<Vec<u8>>| opt_bytes(o))
}

/// Records after a thumbnail pass in which record `i` was handed `jpegs[i]`.
pub open spec fn enriched_all(rs: Seq<LocationView>, jpegs: Seq<Option<Seq<u8>>>) -> Seq<LocationView> {
    Seq::new(rs.len(), |i: int| enriched(rs[i], jpegs[i]))
}

/// Running the thumbnail pass a second time, whatever previews it is handed,
/// keeps every record that the first pass left with a thumbnail exactly as
/// it was.
pub proof fn lemma_thumbnail_pass_twice(
    rs: Seq<LocationView>,
    first: Seq<Option<Seq<u8>>>,
    second: Seq<Option<Seq<u8>>>,
)
    requires
        first.len() == rs.len(),
        second.len() == rs.len(),
    ensures
        enriched_all(enriched_all(rs, first), second).len() == rs.len(),
        forall|i: int|
            0 <= i < rs.len() && (#[trigger] enriched_all(rs, first)[i]).thumbnail is Some
                ==> enriched_all(enriched_all(rs, first), second)[i] == enriched_all(rs, first)[i],
{
}

/// Whether a record's capture time lies in the window; with either bound
/// set, a record whose timestamp does not parse is outside.
pub open spec fn in_window(l: LocationView, before: Option<i64>, after: Option<i64>) -> bool {
    instant_in_window(instant_of(l.timestamp), before, after)
}

/// Whether a capture instant (`None`: none could be parsed) lies in the
/// inclusive window; with either bound set, no instant is outside.
pub open spec fn instant_in_window(t: Option<i64>, before: Option<i64>, after: Option<i64>) -> bool {
    &&& (before is Some ==> t is Some && t.unwrap() <= before.unwrap())
    &&& (after is Some ==> t is Some && t.unwrap() >= after.unwrap())
}

/// Whether a capture instant, in seconds, lies in the inclusive window
/// `after ..= before`; a missing instant lies in it only when no bound is set.
pub fn in_window_at(t: Option<i64>, before: Option<i64>, after: Option<i64>) -> (r: bool)
    ensures
        r == instant_in_window(t, before, after),
{
    let below = match before {
        Some(b) => match t {
            Some(x) => x <= b,
            None => false,
        },
        None => true,
    };
    let above = match after {
        Some(a) => match t {
            Some(x) => x >= a,
            None => false,
        },
        None => true,
    };
    below && above
}

pub open spec fn window_filter(s: Seq<LocationView>, before: Option<i64>, after: Option<i64>) -> Seq<
    LocationView,
> {
    s.filter(|l: LocationView| in_window(l, before, after))
}

/// `c` and the lower-case ASCII `lower` are the same letter, case aside.
pub open spec fn same_ci(c: char, lower: char) -> bool {
    c == lower || ('a' <= lower && lower <= 'z' && c as u32 + 32 == lower as u32)
}

/// `s` ends with `suffix` (lower-case ASCII), case aside.
pub open spec fn ends_with_ci(s: Seq<char>, suffix: Seq<char>) -> bool {
    &&& s.len() >= suffix.len()
    &&& forall|i: int|
        0 <= i < suffix.len() ==> #[trigger] same_ci(s[s.len() - suffix.len() + i], suffix[i])
}

/// The path ends in one of the image extensions, case aside.
pub open spec fn image_extension(s: Seq<char>) -> bool {
    ||| ends_with_ci(s, ".png"@)
    ||| ends_with_ci(s, ".gif"@)
    ||| ends_with_ci(s, ".tif"@)
    ||| ends_with_ci(s, ".tiff"@)
    ||| ends_with_ci(s, ".jpg"@)
    ||| ends_with_ci(s, ".jpeg"@)
}

/// Whether a path is already among the records.
pub open spec fn known(records: Seq<LocationView>, path: Seq<char>) -> bool {
    exists|i: int| 0 <= i < records.len() && (#[trigger] records[i]).file == path
}

/// The candidates that are worth reading: not yet among the records, and
/// with an image extension; in their order.
pub open spec fn to_extract(records: Seq<LocationView>, candidates: Seq<Seq<char>>) -> Seq<Seq<char>> {
    candidates.filter(|c: Seq<char>| !known(records, c) && image_extension(c))
}

/// The members of a feature collection's `features` array: the document
/// must be an object whose `type` is `FeatureCollection`.
pub open spec fn features_of(doc: Json) -> Option<Seq<Json>> {
    match doc {
        Json::Object(f) => if text_of(field_of(f@, "type"@)) == Some("FeatureCollection"@) {
            match field_of(f@, "features"@) {
                Some(Json::Array(a)) => Some(a@),
                _ => None,
            }
        } else {
            None
        },
        _ => None,
    }
}

pub open spec fn geojson_records(features: Seq<Json>) -> Seq<LocationView> {
    features.filter_map(|j: Json| feature_view(j))
}

pub open spec fn kml_records(elements: Seq<KmlElement>) -> Seq<LocationView> {
    elements.filter_map(|e: KmlElement| kml_view(e))
}

/// The KML document of some records, one placemark a line.
pub open spec fn kml_body(s: Seq<LocationView>) -> Seq<char>
    decreases s.len(),
{
    if s.len() == 0 {
        Seq::empty()
    } else {
        kml_body(s.drop_last()) + kml_text(s.last()) + "\n"@
    }
}

/// The GeoJSON features of some records, one a line, each after the first
/// led by a comma.
pub open spec fn geojson_body(s: Seq<LocationView>) -> Seq<char>
    decreases s.len(),
{
    if s.len() == 0 {
        Seq::empty()
    } else {
        geojson_body(s.drop_last()) + (if s.len() > 1 {
            ","@
        } else {
            Seq::empty()
        }) + geojson_text(s.last()) + "\n"@
    }
}

pub open spec fn kml_document(s: Seq<LocationView>) -> Seq<char> {
    "<?xml version=\"1.0\" encoding=\"UTF-8\"?>\n<kml xmlns=\"http://www.opengis.net/kml/2.2\">\n<Document>\n"@
        + kml_body(s) + "</Document>\n</kml>\n"@
}

pub open spec fn geojson_document(s: Seq<LocationView>) -> Seq<char> {
    "{\"type\": \"FeatureCollection\",\"features\": [\n"@ + geojson_body(s) + "]}\n"@
}

/// What `str::trim` leaves of a text.
pub uninterp spec fn trimmed(s: Seq<char>) -> Seq<char>;

/// What `str::to_lowercase` makes of a text.
pub uninterp spec fn lowercased(s: Seq<char>) -> Seq<char>;

/// Every character is ASCII.
pub open spec fn ascii_only(s: Seq<char>) -> bool {
    forall|i: int| 0 <= i < s.len() ==> (#[trigger] s[i] as u32) < 128
}

/// An ASCII character with the Unicode White_Space property.
pub open spec fn ascii_space(c: char) -> bool {
    c == ' ' || ('\t' <= c && c <= '\r')
}

/// `s` without its leading ASCII white space.
pub open spec fn trim_ascii_start(s: Seq<char>) -> Seq<char>
    decreases s.len(),
{
    if s.len() > 0 && ascii_space(s[0]) {
        trim_ascii_start(s.drop_first())
    } else {
        s
    }
}

/// `s` without its trailing ASCII white space.
pub open spec fn trim_ascii_end(s: Seq<char>) -> Seq<char>
    decreases s.len(),
{
    if s.len() > 0 && ascii_space(s.last()) {
        trim_ascii_end(s.drop_last())
    } else {
        s
    }
}

/// `c` with `A`..`Z` lowered.
pub open spec fn ascii_lower(c: char) -> char {
    if 'A' <= c && c <= 'Z' {
        (c as u32 + 32) as char
    } else {
        c
    }
}

/// Relies on `str::trim`: on ASCII text it removes the white space
/// (tab to carriage return, and space) at both ends.
#[verifier::external_body]
fn trim_text(s: &str) -> (r: String)
    ensures
        r@ == trimmed(s@),
        ascii_only(s@) ==> r@ == trim_ascii_end(trim_ascii_start(s@)),
{
    s.trim().to_string()
}

/// Relies on `str::to_lowercase`: on ASCII text it lowers `A`..`Z` and
/// leaves every other character as it is.
#[verifier::external_body]
fn lowercase_text(s: &str) -> (r: String)
    ensures
        r@ == lowercased(s@),
        ascii_only(s@) ==> r@ == s@.map_values(|c: char| ascii_lower(c)),
{
    s.to_lowercase()
}

/// The normalised name of an output format; `geojson` where none is given.
pub open spec fn format_name(format: Option<Seq<char>>) -> Seq<char> {
    match format {
        Some(f) => lowercased(trimmed(f)),
        None => "geojson"@,
    }
}

proof fn lemma_trim_keeps_ascii(s: Seq<char>)
    requires
        ascii_only(s),
    ensures
        ascii_only(trim_ascii_start(s)),
        ascii_only(trim_ascii_end(trim_ascii_start(s))),
{
    lemma_trim_start_ascii(s);
    lemma_trim_end_ascii(trim_ascii_start(s));
}

proof fn lemma_trim_start_ascii(s: Seq<char>)
    requires
        ascii_only(s),
    ensures
        ascii_only(trim_ascii_start(s)),
    decreases s.len(),
{
    if s.len() > 0 && ascii_space(s[0]) {
        assert forall|i: int| 0 <= i < s.drop_first().len() implies (#[trigger] s.drop_first()[i] as u32)
            < 128 by {
            assert(s.drop_first()[i] == s[i + 1]);
        }
        lemma_trim_start_ascii(s.drop_first());
    }
}

proof fn lemma_trim_end_ascii(s: Seq<char>)
    requires
        ascii_only(s),
    ensures
        ascii_only(trim_ascii_end(s)),
    decreases s.len(),
{
    if s.len() > 0 && ascii_space(s.last()) {
        assert forall|i: int| 0 <= i < s.drop_last().len() implies (#[trigger] s.drop_last()[i] as u32)
            < 128 by {
            assert(s.drop_last()[i] == s[i]);
        }
        lemma_trim_end_ascii(s.drop_last());
    }
}

fn same_ci_exec(c: char, lower: char) -> (r: bool)
    ensures
        r == same_ci(c, lower),
{
    c == lower || ('a' <= lower && lower <= 'z' && c as u32 + 32 == lower as u32)
}

fn ends_with_ci_exec(s: &str, suffix: &str) -> (r: bool)
    ensures
        r == ends_with_ci(s@, suffix@),
{
    let n = s.unicode_len();
    let k = suffix.unicode_len();
    if n < k {
        return false;
    }
    let mut i: usize = 0;
    while i < k
        invariant
            n == s@.len(),
            k == suffix@.len(),
            n >= k,
            i <= k,
            forall|j: int| 0 <= j < i ==> #[trigger] same_ci(s@[n - k + j], suffix@[j]),
        decreases k - i,
    {
        if !same_ci_exec(s.get_char(n - k + i), suffix.get_char(i)) {
            return false;
        }
        i = i + 1;
    }
    true
}

/// Whether a path ends in `png`, `gif`, `tif`, `tiff`, `jpg` or `jpeg`
/// after a dot, in any case.
pub fn has_image_extension(path: &str) -> (r: bool)
    ensures
        r == image_extension(path@),
{
    let r = ends_with_ci_exec(path, ".png") || ends_with_ci_exec(path, ".gif") || ends_with_ci_exec(
        path,
        ".tif",
    ) || ends_with_ci_exec(path, ".tiff") || ends_with_ci_exec(path, ".jpg") || ends_with_ci_exec(
        path,
        ".jpeg",
    );
    proof {
        reveal_strlit(".png");
        reveal_strlit(".gif");
        reveal_strlit(".tif");
        reveal_strlit(".tiff");
        reveal_strlit(".jpg");
        reveal_strlit(".jpeg");
    }
    r
}

fn is_known(records: &Vec<FileLocation>, path: &String) -> (r: bool)
    ensures
        r == known(views(records@), path@),
{
    let mut i: usize = 0;
    while i < records.len()
        invariant
            i <= records@.len(),
            forall|j: int| 0 <= j < i ==> (#[trigger] records@[j]).file@ != path@,
        decreases records.len() - i,
    {
        if records[i].file == *path {
            assert(views(records@)[i as int].file == path@);
            return true;
        }
        i = i + 1;
    }
    assert forall|j: int| 0 <= j < views(records@).len() implies (#[trigger] views(records@)[j]).file
        != path@ by {
        assert(records@[j].file@ != path@);
    }
    false
}

impl Default for FileSet {
    fn default() -> (r: FileSet)
        ensures
            r.records().len() == 0,
            r.before_bound() is None,
            r.after_bound() is None,
    {
        FileSet { file_locations: Vec::new(), before: None, after: None }
    }
}

impl FileSet {
    /// The records, as values.
    pub closed spec fn records(&self) -> Seq<LocationView> {
        views(self.file_locations@)
    }

    pub closed spec fn before_bound(&self) -> Option<i64> {
        self.before
    }

    pub closed spec fn after_bound(&self) -> Option<i64> {
        self.after
    }

    /// An empty dataset with no window.
    pub fn new() -> (r: FileSet)
        ensures
            r.records().len() == 0,
            r.before_bound() is None,
            r.after_bound() is None,
    {
        FileSet { file_locations: Vec::new(), before: None, after: None }
    }

    /// The records, in order.
    pub fn locations(&self) -> (r: &Vec<FileLocation>)
        ensures
            views(r@) == self.records(),
    {
        &self.file_locations
    }

    /// Sets the latest capture time (inclusive) that added records may have.
    pub fn set_before(&mut self, instant: i64)
        ensures
            final(self).before_bound() == Some(instant),
            final(self).after_bound() == old(self).after_bound(),
            final(self).records() == old(self).records(),
    {
        self.before = Some(instant);
    }

    /// Sets the earliest capture time (inclusive) that added records may have.
    pub fn set_after(&mut self, instant: i64)
        ensures
            final(self).after_bound() == Some(instant),
            final(self).before_bound() == old(self).before_bound(),
            final(self).records() == old(self).records(),
    {
        self.after = Some(instant);
    }

    /// Replaces the records with those of a GeoJSON document's features;
    /// features that yield no record are passed over. A document without a
    /// `features` array is refused and nothing changes.
    pub fn load_from_geojson(&mut self, doc: &Json) -> (r: Result<(), LoadError>)
        ensures
            final(self).before_bound() == old(self).before_bound(),
            final(self).after_bound() == old(self).after_bound(),
            match features_of(*doc) {
                Some(features) => r is Ok && final(self).records() == geojson_records(features),
                None => r == Err::<(), LoadError>(LoadError::NotFeatureCollection) && final(self).records()
                    == old(self).records(),
            },
    {
        let fields = match doc {
            Json::Object(f) => f,
            _ => return Err(LoadError::NotFeatureCollection),
        };
        proof {
            reveal_strlit("FeatureCollection");
        }
        if !is_text(get_field(fields, "type"), "FeatureCollection") {
            return Err(LoadError::NotFeatureCollection);
        }
        let features = match get_field(fields, "features") {
            Some(Json::Array(a)) => a,
            _ => return Err(LoadError::NotFeatureCollection),
        };
        let mut out: Vec<FileLocation> = Vec::new();
        let mut i: usize = 0;
        while i < features.len()
            invariant
                i <= features@.len(),
                views(out@) == geojson_records(features@.take(i as int)),
            decreases features.len() - i,
        {
            proof {
                features@.lemma_filter_map_take_succ(|j: Json| feature_view(j), i as int);
            }
            match FileLocation::from_geojson_feature(&features[i]) {
                Some(l) => {
                    out.push(l);
                },
                None => {},
            }
            assert(views(out@) =~= geojson_records(features@.take(i + 1)));
            i = i + 1;
        }
        assert(features@.take(features@.len() as int) =~= features@);
        self.file_locations = out;
        Ok(())
    }

    /// Replaces the records with those of a KML document's placemarks
    /// (`None`: the text is no KML document). A document that yields no
    /// record is refused.
    pub fn load_from_kml(&mut self, doc: &Option<Vec<KmlElement>>) -> (r: Result<(), LoadError>)
        ensures
            final(self).before_bound() == old(self).before_bound(),
            final(self).after_bound() == old(self).after_bound(),
            match doc {
                None => r == Err::<(), LoadError>(LoadError::NotKmlDocument) && final(self).records()
                    == old(self).records(),
                Some(es) => final(self).records() == kml_records(es@) && (r is Ok <==> kml_records(
                    es@,
                ).len() > 0) && (r is Err ==> r == Err::<(), LoadError>(LoadError::NoKmlResults)),
            },
    {
        let elements = match doc {
            Some(es) => es,
            None => return Err(LoadError::NotKmlDocument),
        };
        let mut out: Vec<FileLocation> = Vec::new();
        let mut i: usize = 0;
        while i < elements.len()
            invariant
                i <= elements@.len(),
                views(out@) == kml_records(elements@.take(i as int)),
            decreases elements.len() - i,
        {
            proof {
                elements@.lemma_filter_map_take_succ(|e: KmlElement| kml_view(e), i as int);
            }
            match FileLocation::from_kml_element(&elements[i]) {
                Some(l) => {
                    out.push(l);
                },
                None => {},
            }
            assert(views(out@) =~= kml_records(elements@.take(i + 1)));
            i = i + 1;
        }
        assert(elements@.take(elements@.len() as int) =~= elements@);
        self.file_locations = out;
        if self.file_locations.len() == 0 {
            return Err(LoadError::NoKmlResults);
        }
        Ok(())
    }

    /// Loads a prior export: as GeoJSON where `geojson` (the text read as
    /// JSON, if it is JSON) is a feature collection, else as KML (`kml`: the
    /// elements of the KML document, if the text is one), where that yields
    /// a record; otherwise fails.
    pub fn load_from_file(&mut self, geojson: &Option<Json>, kml: &Option<Vec<KmlElement>>) -> (r:
        Result<(), LoadError>)
        ensures
            final(self).before_bound() == old(self).before_bound(),
            final(self).after_bound() == old(self).after_bound(),
            match geojson {
                Some(doc) if features_of(*doc) is Some => r is Ok && final(self).records()
                    == geojson_records(features_of(*doc).unwrap()),
                _ => match kml {
                    Some(es) if kml_records(es@).len() > 0 => r is Ok && final(self).records()
                        == kml_records(es@),
                    _ => r == Err::<(), LoadError>(LoadError::UnknownFormat),
                },
            },
    {
        match geojson {
            Some(doc) => {
                if self.load_from_geojson(doc).is_ok() {
                    return Ok(());
                }
            },
            None => {},
        }
        if self.load_from_kml(kml).is_ok() {
            return Ok(());
        }
        Err(LoadError::UnknownFormat)
    }

    /// The candidate paths that are worth reading, in their order: those not
    /// yet among the records that end in an image extension.
    pub fn candidates_to_extract(&self, candidates: &Vec<String>) -> (r: Vec<String>)
        ensures
            text_views(r@) == to_extract(self.records(), text_views(candidates@)),
    {
        let ghost cs = text_views(candidates@);
        let ghost p = |c: Seq<char>| !known(self.records(), c) && image_extension(c);
        let mut out: Vec<String> = Vec::new();
        let mut i: usize = 0;
        while i < candidates.len()
            invariant
                i <= candidates@.len(),
                cs == text_views(candidates@),
                p == (|c: Seq<char>| !known(self.records(), c) && image_extension(c)),
                text_views(out@) == cs.take(i as int).filter(p),
            decreases candidates.len() - i,
        {
            let c = &candidates[i];
            let keep = !is_known(&self.file_locations, c) && has_image_extension(c.as_str());
            if keep {
                out.push(c.clone());
            }
            proof {
                reveal(Seq::filter);
                assert(cs.take(i + 1).drop_last() =~= cs.take(i as int));
                assert(cs.take(i + 1).last() == c@);
            }
            assert(text_views(out@) =~= cs.take(i + 1).filter(p));
            i = i + 1;
        }
        assert(cs.take(cs.len() as int) =~= cs);
        out
    }

    /// Appends newly read records, keeping, where a bound is set, only those
    /// whose capture time lies in the window; the records already there are
    /// neither dropped nor reordered.
    pub fn add_locations(&mut self, new: Vec<FileLocation>)
        ensures
            final(self).before_bound() == old(self).before_bound(),
            final(self).after_bound() == old(self).after_bound(),
            final(self).records() == old(self).records() + window_filter(
                views(new@),
                old(self).before_bound(),
                old(self).after_bound(),
            ),
    {
        let ghost nv = views(new@);
        let ghost start = self.records();
        let ghost p = |l: LocationView| in_window(l, self.before, self.after);
        let mut i: usize = 0;
        while i < new.len()
            invariant
                i <= new@.len(),
                nv == views(new@),
                p == (|l: LocationView| in_window(l, self.before, self.after)),
                self.before == old(self).before,
                self.after == old(self).after,
                start == old(self).records(),
                self.records() == start + nv.take(i as int).filter(p),
            decreases new.len() - i,
        {
            let t = new[i].timestamp_parsed();
            let keep = in_window_at(t, self.before, self.after);
            assert(keep == in_window(new@[i as int]@, self.before, self.after));
            let ghost prior = self.records();
            if keep {
                let d = new[i].duplicate();
                self.file_locations.push(d);
                assert(self.records() =~= prior.push(new@[i as int]@));
            } else {
                assert(self.records() =~= prior);
            }
            proof {
                reveal(Seq::filter);
                assert(nv.take(i + 1).drop_last() =~= nv.take(i as int));
                assert(nv.take(i + 1).last() == new@[i as int]@);
                assert(p(nv[i as int]) == keep);
            }
            assert(self.records() =~= start + nv.take(i + 1).filter(p));
            i = i + 1;
        }
        assert(nv.take(nv.len() as int) =~= nv);
    }

    /// The thumbnail pass: record `i` is handed `jpegs[i]` (the medium-size
    /// JPEG preview of its file, where one could be made) and keeps any
    /// thumbnail it has.
    pub fn generate_missing_thumbnails(&mut self, jpegs: &Vec<Option<Vec<u8>>>)
        requires
            jpegs@.len() == old(self).records().len(),
        ensures
            final(self).before_bound() == old(self).before_bound(),
            final(self).after_bound() == old(self).after_bound(),
            final(self).records().len() == old(self).records().len(),
            final(self).records() == enriched_all(old(self).records(), jpeg_views(jpegs@)),
    {
        let mut out: Vec<FileLocation> = Vec::new();
        let mut i: usize = 0;
        while i < self.file_locations.len()
            invariant
                i <= self.file_locations@.len(),
                jpegs@.len() == self.file_locations@.len(),
                self == old(self),
                out@.len() == i,
                forall|j: int|
                    0 <= j < i ==> #[trigger] out@[j]@ == enriched(
                        self.file_locations@[j]@,
                        opt_bytes(jpegs@[j]),
                    ),
            decreases self.file_locations.len() - i,
        {
            let mut d = self.file_locations[i].duplicate();
            d.generate_missing_thumbnail(&jpegs[i]);
            out.push(d);
            i = i + 1;
        }
        assert(views(out@) =~= enriched_all(self.records(), jpeg_views(jpegs@)));
        self.file_locations = out;
    }

    /// The whole dataset in the named format (`kml` or `geojson`, any case,
    /// surrounding blanks ignored; `geojson` where none is named).
    pub fn output(&self, format: &Option<String>) -> (r: Result<String, OutputError>)
        ensures
            ({
                let name = format_name(match format {
                    Some(f) => Some(f@),
                    None => None,
                });
                if name == "kml"@ {
                    r is Ok && r.unwrap()@ == kml_document(self.records())
                } else if name == "geojson"@ {
                    r is Ok && r.unwrap()@ == geojson_document(self.records())
                } else {
                    r is Err && match r {
                        Err(OutputError::UnknownFormat(n)) => n@ == name,
                        _ => false,
                    }
                }
            }),
            match format {
                Some(f) => ascii_only(f@) ==> format_name(Some(f@)) == trim_ascii_end(
                    trim_ascii_start(f@),
                ).map_values(|c: char| ascii_lower(c)),
                None => true,
            },
    {
        let name = match format {
            Some(f) => {
                let t = trim_text(f.as_str());
                proof {
                    if ascii_only(f@) {
                        lemma_trim_keeps_ascii(f@);
                    }
                }
                lowercase_text(t.as_str())
            },
            None => String::from_str("geojson"),
        };
        self.render(name.as_str())
    }

    /// The whole dataset in the format of that exact name: `kml` or
    /// `geojson`; any other name is refused and returned.
    pub fn render(&self, name: &str) -> (r: Result<String, OutputError>)
        ensures
            name@ == "kml"@ ==> r is Ok && r.unwrap()@ == kml_document(self.records()),
            name@ == "geojson"@ ==> r is Ok && r.unwrap()@ == geojson_document(self.records()),
            name@ != "kml"@ && name@ != "geojson"@ ==> match r {
                Err(OutputError::UnknownFormat(n)) => n@ == name@,
                _ => false,
            },
    {
        let given = String::from_str(name);
        let kml_name = String::from_str("kml");
        let geojson_name = String::from_str("geojson");
        proof {
            reveal_strlit("kml");
            reveal_strlit("geojson");
            assert("kml"@.len() != "geojson"@.len());
        }
        if given == kml_name {
            Ok(self.render_kml())
        } else if given == geojson_name {
            Ok(self.render_geojson())
        } else {
            Err(OutputError::UnknownFormat(given))
        }
    }

    fn render_kml(&self) -> (r: String)
        ensures
            r@ == kml_document(self.records()),
    {
        let mut out = String::new();
        out.append(
            "<?xml version=\"1.0\" encoding=\"UTF-8\"?>\n<kml xmlns=\"http://www.opengis.net/kml/2.2\">\n<Document>\n",
        );
        let ghost head = out@;
        let ghost rs = self.records();
        let mut i: usize = 0;
        while i < self.file_locations.len()
            invariant
                i <= self.file_locations@.len(),
                rs == self.records(),
                out@ == head + kml_body(rs.take(i as int)),
            decreases self.file_locations.len() - i,
        {
            let line = self.file_locations[i].as_kml();
            out.append(line.as_str());
            out.append("\n");
            proof {
                reveal_strlit("\n");
                assert(rs.take(i + 1).drop_last() =~= rs.take(i as int));
            }
            assert(out@ =~= head + kml_body(rs.take(i + 1)));
            i = i + 1;
        }
        out.append("</Document>\n</kml>\n");
        proof {
            reveal_strlit(
                "<?xml version=\"1.0\" encoding=\"UTF-8\"?>\n<kml xmlns=\"http://www.opengis.net/kml/2.2\">\n<Document>\n",
            );
            reveal_strlit("</Document>\n</kml>\n");
            assert(rs.take(rs.len() as int) =~= rs);
        }
        assert(out@ =~= kml_document(self.records()));
        out
    }

    fn render_geojson(&self) -> (r: String)
        ensures
            r@ == geojson_document(self.records()),
    {
        let mut out = String::new();
        out.append("{\"type\": \"FeatureCollection\",\"features\": [\n");
        let ghost head = out@;
        let ghost rs = self.records();
        let mut i: usize = 0;
        while i < self.file_locations.len()
            invariant
                i <= self.file_locations@.len(),
                rs == self.records(),
                out@ == head + geojson_body(rs.take(i as int)),
            decreases self.file_locations.len() - i,
        {
            if i > 0 {
                out.append(",");
            }
            let line = self.file_locations[i].as_geojson();
            out.append(line.as_str());
            out.append("\n");
            proof {
                reveal_strlit("\n");
                reveal_strlit(",");
                assert(rs.take(i + 1).drop_last() =~= rs.take(i as int));
            }
            assert(out@ =~= head + geojson_body(rs.take(i + 1)));
            i = i + 1;
        }
        out.append("]}\n");
        proof {
            reveal_strlit("{\"type\": \"FeatureCollection\",\"features\": [\n");
            reveal_strlit("]}\n");
            assert(rs.take(rs.len() as int) =~= rs);
        }
        assert(out@ =~= geojson_document(self.records()));
        out
    }
}

} // verus!
