//! Ranked keyword search over the full-text indexes of the known workspaces.
//!
//! The indexes are tantivy indexes kept on disk, one per workspace, under
//! `<data dir>/workspaces/<key>/tantivy`. Reading them goes through tantivy;
//! what this module proves is how a query is normalised, how the number of
//! results is bounded, how the paths of the matching documents are kept,
//! and how the hits of several indexes are merged.

use vstd::prelude::*;
use tantivy::schema::Value;

verus! {

#[verifier::external_type_specification]
#[verifier::external_body]
pub struct ExTantivyIndex(tantivy::Index);

#[verifier::external_type_specification]
#[verifier::external_body]
pub struct ExTantivyError(tantivy::TantivyError);

#[verifier::external_type_specification]
#[verifier::external_body]
pub struct ExIndexReader(tantivy::IndexReader);

#[verifier::external_type_specification]
#[verifier::external_body]
pub struct ExSearcher(tantivy::Searcher);

#[verifier::external_type_specification]
#[verifier::external_body]
pub struct ExField(tantivy::schema::Field);

#[verifier::external_type_specification]
#[verifier::external_body]
pub struct ExDocAddress(tantivy::DocAddress);

#[verifier::external_type_specification]
#[verifier::external_body]
pub struct ExQueryParserError(tantivy::query::QueryParserError);

/// An open index, with the directory it was opened from.
pub struct OpenedIndex {
    index: tantivy::Index,
    dir: Ghost<Seq<char>>,
}

/// A reader of an open index, with the index's directory.
pub struct OpenedReader {
    reader: tantivy::IndexReader,
    dir: Ghost<Seq<char>>,
}

/// A searcher of an open index, with the index's directory.
pub struct OpenedSearcher {
    searcher: tantivy::Searcher,
    dir: Ghost<Seq<char>>,
}

impl OpenedIndex {
    pub closed spec fn dir(&self) -> Seq<char> {
        self.dir@
    }
}

impl OpenedReader {
    pub closed spec fn dir(&self) -> Seq<char> {
        self.dir@
    }
}

impl OpenedSearcher {
    pub closed spec fn dir(&self) -> Seq<char> {
        self.dir@
    }
}

/// `tantivy::Index::open_in_dir`: opens the index stored in directory `dir`,
/// kept with that directory. Whether it opens depends on the files on disk.
#[verifier::external_body]
fn open_index(dir: &str) -> (r: Result<OpenedIndex, tantivy::TantivyError>)
    ensures
        r matches Ok(i) ==> i.dir() == dir@,
{
    tantivy::Index::open_in_dir(dir).map(|index| OpenedIndex { index, dir: Ghost(dir@) })
}

/// `tantivy::Index::reader`: a reader over the index's committed segments.
#[verifier::external_body]
fn index_reader(index: &OpenedIndex) -> (r: Result<OpenedReader, tantivy::TantivyError>)
    ensures
        r matches Ok(rd) ==> rd.dir() == index.dir(),
{
    index.index.reader().map(|reader| OpenedReader { reader, dir: Ghost(index.dir()) })
}

/// `tantivy::IndexReader::searcher`: a searcher over the current segments.
#[verifier::external_body]
fn reader_searcher(reader: &OpenedReader) -> (s: OpenedSearcher)
    ensures
        s.dir() == reader.dir(),
{
    OpenedSearcher { searcher: reader.reader.searcher(), dir: Ghost(reader.dir()) }
}

/// The addresses of the documents that matched a query, best first, with
/// the index directory and the query they were found for.
pub struct Matches {
    docs: Vec<tantivy::DocAddress>,
    dir: Ghost<Seq<char>>,
    query: Ghost<Seq<char>>,
}

impl Matches {
    pub closed spec fn dir(&self) -> Seq<char> {
        self.dir@
    }

    pub closed spec fn query(&self) -> Seq<char> {
        self.query@
    }
}

/// A field of an index's schema, with the name it was looked up by.
pub struct NamedField {
    field: tantivy::schema::Field,
    name: Ghost<Seq<char>>,
}

impl NamedField {
    /// The name the field was looked up by.
    pub closed spec fn name(&self) -> Seq<char> {
        self.name@
    }
}

/// The names of the fields in `fields`, in order.
pub open spec fn field_names(fields: Seq<NamedField>) -> Seq<Seq<char>> {
    fields.map_values(|f: NamedField| f.name())
}

/// The field whose stored value is a result's path.
pub open spec fn path_field() -> Seq<char> {
    "path"@
}

/// The fields a query is matched against: the file name, then the contents.
pub open spec fn query_fields() -> Seq<Seq<char>> {
    seq!["name"@, "content"@]
}

/// `tantivy::schema::Schema::get_field` on the index's schema: the field
/// named `name`, kept with that name.
#[verifier::external_body]
fn schema_field(index: &OpenedIndex, name: &str) -> (r: Result<NamedField, tantivy::TantivyError>)
    ensures
        r matches Ok(f) ==> f.name() == name@,
{
    index.index.schema().get_field(name).map(|field| NamedField { field, name: Ghost(name@) })
}

/// `tantivy::query::QueryParser::parse_query` (a parser over the index and
/// the given default fields), then `Searcher::search` with
/// `TopDocs::with_limit(limit).order_by_score()`: the addresses of the best
/// matches, best first, without their scores. Both calls stand in one item:
/// the parsed query, a boxed trait object, stays inside it. `TopDocs`
/// collects at most `limit` documents and panics on a limit of 0; what it
/// finds depends on the index on disk.
#[verifier::external_body]
fn top_documents(
    index: &OpenedIndex,
    searcher: &OpenedSearcher,
    fields: Vec<NamedField>,
    query: &str,
    limit: usize,
) -> (r: Result<Result<Matches, tantivy::TantivyError>, tantivy::query::QueryParserError>)
    requires
        limit > 0,
        searcher.dir() == index.dir(),
        field_names(fields@) == query_fields(),
    ensures
        r matches Ok(Ok(m)) ==> m.docs@.len() <= limit && m.dir() == index.dir() && m.query() == query@,
{
    let fields: Vec<tantivy::schema::Field> = fields.into_iter().map(|f| f.field).collect();
    let parsed = tantivy::query::QueryParser::for_index(&index.index, fields).parse_query(query)?;
    let collector = tantivy::collector::TopDocs::with_limit(limit).order_by_score();
    Ok(searcher.searcher.search(&parsed, &collector).map(|hits| Matches {
        docs: hits.into_iter().map(|(_, a)| a).collect(),
        dir: Ghost(index.dir()),
        query: Ghost(query@),
    }))
}

/// The stored value of one document, with the address it was read from.
pub struct StoredValue {
    pub value: Result<Option<String>, tantivy::TantivyError>,
    pub doc: Ghost<tantivy::DocAddress>,
}

/// `Searcher::doc`, then the first text value of `field` in the stored
/// document, kept with the document's address.
#[verifier::external_body]
fn stored_text(
    searcher: &OpenedSearcher,
    address: tantivy::DocAddress,
    field: &NamedField,
) -> (r: StoredValue)
    requires
        field.name() == path_field(),
    ensures
        r.doc@ == address,
{
    let value = searcher.searcher.doc::<tantivy::TantivyDocument>(address)
        .map(|doc| doc.get_first(field.field).and_then(|v| v.as_str()).map(|s| s.to_string()));
    StoredValue { value, doc: Ghost(address) }
}

/// `directories::ProjectDirs::from(qualifier, organization, application)`,
/// then `data_dir`: the per-user data directory of the application, when
/// the platform has one. It depends on the environment; nothing is promised.
#[verifier::external_body]
pub(crate) fn project_data_dir(qualifier: &str, organization: &str, application: &str) -> Option<String> {
    directories::ProjectDirs::from(qualifier, organization, application)
        .map(|d| d.data_dir().to_string_lossy().into_owned())
}

#[verifier::external_type_specification]
#[verifier::external_body]
pub struct ExWalkdirError(walkdir::Error);

/// `walkdir::WalkDir::new(dir)` limited to depth one: the paths of the
/// entries directly inside `dir`, or the error met for each. It depends on
/// the files on disk; nothing is promised.
#[verifier::external_body]
fn directory_entries(dir: &str) -> Vec<Result<String, walkdir::Error>> {
    walkdir::WalkDir::new(dir)
        .min_depth(1)
        .max_depth(1)
        .into_iter()
        .map(|e| e.map(|e| e.path().to_string_lossy().into_owned()))
        .collect()
}

} // verus!

verus! {

/// At most this many results are returned by one search.
pub const MAX_SEARCH_RESULTS: usize = 1000;

/// A search result.
pub struct SearchHit {
    /// The path of the matching file.
    pub path: String,
    /// The directory of the index the hit was found in.
    pub dir: Ghost<Seq<char>>,
    /// The query the hit was found for.
    pub query: Ghost<Seq<char>>,
}

impl SearchHit {
    pub open spec fn dir(&self) -> Seq<char> {
        self.dir@
    }

    pub open spec fn query(&self) -> Seq<char> {
        self.query@
    }
}

/// Whether `dir` is the `tantivy` index directory inside some workspace
/// directory.
pub open spec fn workspace_index(dir: Seq<char>) -> bool {
    exists|w: Seq<char>| dir == #[trigger] crate::text::join_path(w, "tantivy"@)
}

/// Every hit of `hits` was found for `query` in a workspace index.
pub open spec fn hits_found_for(hits: Seq<SearchHit>, query: Seq<char>) -> bool {
    forall|i: int| 0 <= i < hits.len() ==> (#[trigger] hits[i]).query() == query && workspace_index(hits[i].dir())
}

/// How many results a search may return when `limit` are asked for.
pub open spec fn result_cap(limit: usize) -> usize {
    if limit < MAX_SEARCH_RESULTS { limit } else { MAX_SEARCH_RESULTS }
}

/// The paths kept from the stored `path` values of the matching documents,
/// in order: a document without one is passed over.
pub open spec fn kept_paths(texts: Seq<Result<Option<String>, ()>>) -> Seq<Seq<char>>
    decreases texts.len(),
{
    if texts.len() == 0 {
        Seq::empty()
    } else {
        kept_paths(texts.drop_last()) + match texts.last() {
            Ok(Some(p)) => seq![p@],
            _ => Seq::empty(),
        }
    }
}

/// Whether reading some stored document failed.
pub open spec fn has_read_error(texts: Seq<Result<Option<String>, ()>>) -> bool {
    exists|i: int| 0 <= i < texts.len() && (#[trigger] texts[i]) is Err
}

/// The message of a failed read of a stored document.
pub open spec fn read_error_message() -> Seq<char> {
    "cannot read a stored document"@
}

/// The paths of a search's results from what reading each stored document
/// gave: the first failed read fails the search; otherwise the stored paths
/// in order (see [`kept_paths`]).
pub fn stored_paths(texts: Vec<Result<Option<String>, ()>>) -> (r: Result<Vec<String>, crate::index::IndexError>)
    ensures
        has_read_error(texts@) ==> (r matches Err(crate::index::IndexError::Message(m)) && m@ == read_error_message()),
        !has_read_error(texts@) ==> (r matches Ok(v) && crate::text::views(v@) == kept_paths(texts@)),
{
    let mut out: Vec<String> = Vec::new();
    let mut i: usize = 0;
    assert(texts@.take(0) =~= Seq::<Result<Option<String>, ()>>::empty());
    assert(crate::text::views(out@) =~= Seq::<Seq<char>>::empty());
    while i < texts.len()
        invariant
            i <= texts@.len(),
            forall|t: int| 0 <= t < i ==> !(#[trigger] texts@[t] is Err),
            crate::text::views(out@) == kept_paths(texts@.take(i as int)),
        decreases texts.len() - i,
    {
        let ghost before = crate::text::views(out@);
        assert(texts@.take(i + 1).drop_last() =~= texts@.take(i as int));
        assert(texts@.take(i + 1).last() == texts@[i as int]);
        match &texts[i] {
            Ok(Some(p)) => {
                out.push(p.clone());
                assert(crate::text::views(out@) =~= before + seq![p@]);
            },
            Ok(None) => {
                assert(before + Seq::<Seq<char>>::empty() =~= before);
            },
            Err(_) => {
                assert(has_read_error(texts@)) by { assert(texts@[i as int] is Err); }
                return Err(crate::index::IndexError::Message("cannot read a stored document".to_string()));
            },
        }
        i = i + 1;
    }
    assert(texts@.take(i as int) =~= texts@);
    Ok(out)
}

/// The names of the fields a search reads.
pub struct IndexFieldNames {
    pub path: String,
    pub name: String,
    pub content: String,
}

/// The field names of the search index: `path` for the result, `name` and
/// `content` for the query (see [`path_field`], [`query_fields`]).
pub fn index_field_names() -> (r: IndexFieldNames)
    ensures
        r.path@ == path_field(),
        seq![r.name@, r.content@] == query_fields(),
{
    IndexFieldNames { path: "path".to_string(), name: "name".to_string(), content: "content".to_string() }
}

/// The messages with which a search of one index fails.
pub open spec fn search_failure(m: Seq<char>) -> bool {
    ||| m == "cannot open the search index"@
    ||| m == "the index has no path field"@
    ||| m == "the index has no name field"@
    ||| m == "the index has no content field"@
    ||| m == "cannot read the search index"@
    ||| m == "the search failed"@
    ||| m == "the query could not be parsed"@
    ||| m == read_error_message()
}

/// `paths` are what [`stored_paths`] gives for the stored values of at most
/// `limit` documents that were all read.
pub open spec fn found_paths(paths: Seq<Seq<char>>, limit: nat) -> bool {
    exists|texts: Seq<Result<Option<String>, ()>>|
        texts.len() <= limit && !has_read_error(texts) && paths == #[trigger] kept_paths(texts)
}

/// The paths found by a search, with the index directory and the query
/// they were searched for.
pub struct SearchResults {
    pub paths: Vec<String>,
    /// The directory of the index that was searched.
    pub dir: Ghost<Seq<char>>,
    /// The query that was searched for.
    pub query: Ghost<Seq<char>>,
    /// The documents the query matched, best first.
    pub matched: Ghost<Seq<tantivy::DocAddress>>,
    /// The documents whose stored values were read, in the order read.
    pub read_from: Ghost<Seq<tantivy::DocAddress>>,
    /// What reading each of them gave.
    pub stored: Ghost<Seq<Result<Option<String>, ()>>>,
}

impl SearchResults {
    pub open spec fn dir(&self) -> Seq<char> {
        self.dir@
    }

    pub open spec fn query(&self) -> Seq<char> {
        self.query@
    }
}

/// The stored paths of the best matches for `query` in the index at `dir`,
/// best first, at most `limit` of them; a limit of 0 finds nothing and
/// reads no index. Which documents match depends on the index on disk; the
/// index is the one opened from `dir`, it is queried with `query` over the
/// fields [`query_fields`], the paths are assembled by [`stored_paths`],
/// and each failure gives its own message (see [`search_failure`]).
pub fn search_in_dir(dir: &str, query: &str, limit: usize) -> (r: Result<SearchResults, crate::index::IndexError>)
    ensures
        limit == 0 ==> (r matches Ok(v) && v.paths@.len() == 0),
        r matches Ok(v) ==> {
            &&& v.dir() == dir@
            &&& v.query() == query@
            &&& v.paths@.len() <= limit
            &&& found_paths(crate::text::views(v.paths@), limit as nat)
            &&& v.matched@.len() <= limit
            &&& v.read_from@ == v.matched@
            &&& v.stored@.len() == v.matched@.len()
            &&& !has_read_error(v.stored@)
            &&& crate::text::views(v.paths@) == kept_paths(v.stored@)
        },
        r matches Err(crate::index::IndexError::Message(m)) ==> search_failure(m@),
{
    if limit == 0 {
        let out: Vec<String> = Vec::new();
        assert(crate::text::views(out@) =~= kept_paths(Seq::<Result<Option<String>, ()>>::empty()));
        return Ok(SearchResults {
            paths: out,
            dir: Ghost(dir@),
            query: Ghost(query@),
            matched: Ghost(Seq::empty()),
            read_from: Ghost(Seq::empty()),
            stored: Ghost(Seq::empty()),
        });
    }
    let index = match open_index(dir) {
        Ok(i) => i,
        Err(_) => return Err(crate::index::IndexError::Message("cannot open the search index".to_string())),
    };
    let names = index_field_names();
    let path = match schema_field(&index, names.path.as_str()) {
        Ok(f) => f,
        Err(_) => return Err(crate::index::IndexError::Message("the index has no path field".to_string())),
    };
    let name = match schema_field(&index, names.name.as_str()) {
        Ok(f) => f,
        Err(_) => return Err(crate::index::IndexError::Message("the index has no name field".to_string())),
    };
    let content = match schema_field(&index, names.content.as_str()) {
        Ok(f) => f,
        Err(_) => return Err(crate::index::IndexError::Message("the index has no content field".to_string())),
    };
    let reader = match index_reader(&index) {
        Ok(r) => r,
        Err(_) => return Err(crate::index::IndexError::Message("cannot read the search index".to_string())),
    };
    let searcher = reader_searcher(&reader);
    let mut fields: Vec<NamedField> = Vec::new();
    let ghost (n0, c0) = (name.name(), content.name());
    fields.push(name);
    fields.push(content);
    assert(field_names(fields@) =~= seq![n0, c0]);
    let matches = match top_documents(&index, &searcher, fields, query, limit) {
        Ok(Ok(m)) => m,
        Ok(Err(_)) => return Err(crate::index::IndexError::Message("the search failed".to_string())),
        Err(_) => return Err(crate::index::IndexError::Message("the query could not be parsed".to_string())),
    };
    let mut texts: Vec<Result<Option<String>, ()>> = Vec::new();
    let ghost mut read: Seq<tantivy::DocAddress> = Seq::empty();
    let mut failed = false;
    let mut i: usize = 0;
    while i < matches.docs.len() && !failed
        invariant
            i <= matches.docs@.len(),
            matches.docs@.len() <= limit,
            path.name() == path_field(),
            texts@.len() == i,
            read == matches.docs@.subrange(0, i as int),
            failed ==> has_read_error(texts@),
        decreases matches.docs.len() - i,
    {
        let got = stored_text(&searcher, matches.docs[i], &path);
        proof {
            assert(matches.docs@.subrange(0, i + 1) =~= read.push(got.doc@));
            read = read.push(got.doc@);
        }
        match got.value {
            Ok(t) => texts.push(Ok(t)),
            Err(_) => {
                texts.push(Err(()));
                failed = true;
                assert(has_read_error(texts@)) by { assert(texts@[i as int] is Err); }
            },
        }
        i = i + 1;
    }
    proof {
        kept_paths_len(texts@);
    }
    let ghost stored = texts@;
    match stored_paths(texts) {
        Ok(paths) => {
            assert(!failed);
            assert(matches.docs@.subrange(0, i as int) =~= matches.docs@);
            Ok(SearchResults {
                paths,
                dir: Ghost(matches.dir()),
                query: Ghost(matches.query()),
                matched: Ghost(matches.docs@),
                read_from: Ghost(read),
                stored: Ghost(stored),
            })
        },
        Err(e) => Err(e),
    }
}

/// Whether reading a document gave a stored path.
pub open spec fn holds_path(t: Result<Option<String>, ()>) -> bool {
    t matches Ok(Some(_))
}

/// How many of `texts` hold a stored path.
pub open spec fn path_count(texts: Seq<Result<Option<String>, ()>>) -> nat
    decreases texts.len(),
{
    if texts.len() == 0 {
        0
    } else {
        path_count(texts.drop_last()) + if holds_path(texts.last()) { 1nat } else { 0nat }
    }
}

/// Every stored path is kept, in rank order, and nothing else: the paths
/// kept from the stored values `texts` are as many as the documents that
/// hold a path, and the path of the `i`-th document stands after those of
/// the documents before it.
pub proof fn every_stored_path_is_kept(texts: Seq<Result<Option<String>, ()>>)
    ensures
        kept_paths(texts).len() == path_count(texts),
        forall|i: int| 0 <= i < texts.len() && holds_path(#[trigger] texts[i])
            ==> kept_paths(texts)[path_count(texts.subrange(0, i)) as int] == texts[i]->Ok_0->Some_0@,
    decreases texts.len(),
{
    if texts.len() > 0 {
        let prev = texts.drop_last();
        every_stored_path_is_kept(prev);
        assert forall|i: int| 0 <= i < texts.len() && holds_path(#[trigger] texts[i])
            implies kept_paths(texts)[path_count(texts.subrange(0, i)) as int] == texts[i]->Ok_0->Some_0@ by {
            if i < prev.len() {
                assert(texts.subrange(0, i) =~= prev.subrange(0, i));
                assert(prev[i] == texts[i]);
                path_count_prefix(prev, i);
            } else {
                assert(texts.subrange(0, i) =~= prev);
            }
        }
    }
}

proof fn path_count_prefix(texts: Seq<Result<Option<String>, ()>>, i: int)
    requires
        0 <= i < texts.len(),
        holds_path(texts[i]),
    ensures
        path_count(texts.subrange(0, i)) < path_count(texts),
    decreases texts.len(),
{
    if i < texts.len() - 1 {
        path_count_prefix(texts.drop_last(), i);
        assert(texts.drop_last().subrange(0, i) =~= texts.subrange(0, i));
        assert(texts.drop_last()[i] == texts[i]);
    } else {
        assert(texts.subrange(0, i) =~= texts.drop_last());
    }
}

/// No more paths are kept than there are documents.
proof fn kept_paths_len(texts: Seq<Result<Option<String>, ()>>)
    ensures
        kept_paths(texts).len() <= texts.len(),
    decreases texts.len(),
{
    if texts.len() > 0 {
        kept_paths_len(texts.drop_last());
    }
}

/// `paths` extended by the members of `hits` that it does not hold yet, in
/// order, each once, for as long as it holds fewer than `cap` paths.
pub open spec fn merged(paths: Seq<Seq<char>>, hits: Seq<Seq<char>>, cap: nat) -> Seq<Seq<char>>
    decreases hits.len(),
{
    if hits.len() == 0 || paths.len() >= cap {
        paths
    } else if paths.contains(hits[0]) {
        merged(paths, hits.drop_first(), cap)
    } else {
        merged(paths.push(hits[0]), hits.drop_first(), cap)
    }
}

/// Appends the paths of `hits` that are not yet in `out`, in order, while
/// `out` holds fewer than `cap` paths (see [`merged`]).
fn merge_hits(out: &mut Vec<SearchHit>, found: SearchResults, cap: usize)
    requires
        old(out)@.len() <= cap,
        hit_paths(old(out)@).no_duplicates(),
        hits_found_for(old(out)@, found.query()),
        workspace_index(found.dir()),
    ensures
        hit_paths(final(out)@) == merged(hit_paths(old(out)@), crate::text::views(found.paths@), cap as nat),
        hits_found_for(final(out)@, found.query()),
        final(out)@.len() <= cap,
        hit_paths(final(out)@).no_duplicates(),
        hit_paths(old(out)@).is_prefix_of(hit_paths(final(out)@)),
{
    let hits = &found.paths;
    let ghost all = crate::text::views(hits@);
    let mut k: usize = 0;
    assert(all.skip(0) =~= all);
    while k < hits.len() && out.len() < cap
        invariant
            k <= hits.len(),
            all == crate::text::views(hits@),
            out@.len() <= cap,
            hit_paths(out@).no_duplicates(),
            hit_paths(old(out)@).is_prefix_of(hit_paths(out@)),
            merged(hit_paths(old(out)@), all, cap as nat) == merged(hit_paths(out@), all.skip(k as int), cap as nat),
            hits == &found.paths,
            hits_found_for(out@, found.query()),
            workspace_index(found.dir()),
        decreases hits.len() - k,
    {
        let ghost rest = all.skip(k as int);
        assert(rest[0] == all[k as int]);
        assert(all[k as int] == hits@[k as int]@);
        assert(rest.drop_first() =~= all.skip(k + 1));
        let mut seen = false;
        let mut j: usize = 0;
        while j < out.len()
            invariant
                k < hits.len(),
                j <= out@.len(),
                seen <==> exists|t: int| 0 <= t < j && hit_paths(out@)[t] == hits@[k as int]@,
            decreases out@.len() - j,
        {
            assert(hit_paths(out@)[j as int] == out@[j as int].path@);
            if crate::text::str_eq(out[j].path.as_str(), hits[k].as_str()) {
                seen = true;
            }
            j = j + 1;
        }
        if !seen {
            let ghost before = hit_paths(out@);
            let ghost before_hits = out@;
            out.push(SearchHit { path: hits[k].clone(), dir: Ghost(found.dir()), query: Ghost(found.query()) });
            proof {
                assert forall|t: int| 0 <= t < out@.len() implies (#[trigger] out@[t]).query() == found.query()
                    && workspace_index(out@[t].dir()) by {
                    if t < before_hits.len() {
                        assert(out@[t] == before_hits[t]);
                    }
                }
                let now = hit_paths(out@);
                assert(now =~= before.push(hits@[k as int]@));
                assert forall|a: int, b: int| 0 <= a < now.len() && 0 <= b < now.len() && a != b implies now[a] != now[b] by {
                    if a == before.len() as int {
                        assert(now[b] == before[b]);
                    } else if b == before.len() as int {
                        assert(now[a] == before[a]);
                    }
                }
                assert(hit_paths(old(out)@).is_prefix_of(now)) by {
                    assert forall|t: int| 0 <= t < hit_paths(old(out)@).len() implies hit_paths(old(out)@)[t] == now[t] by {
                        assert(before[t] == now[t]);
                    }
                }
            }
        }
        k = k + 1;
    }
    assert(k == hits.len() ==> all.skip(k as int) =~= Seq::<Seq<char>>::empty());
}

pub open spec fn hit_paths(v: Seq<SearchHit>) -> Seq<Seq<char>> {
    v.map_values(|h: SearchHit| h.path@)
}

/// What a workspace entry gave a ranked search: nothing when the entry
/// could not be read, else what searching its index gave.
pub type WorkspaceSearch = Option<Result<SearchResults, crate::index::IndexError>>;

/// The paths of `searched`'s hits merged in workspace order (see
/// [`merged`]), at most `cap` of them; workspaces whose index could not be
/// searched add nothing.
pub open spec fn ranked_paths(searched: Seq<WorkspaceSearch>, cap: nat) -> Seq<Seq<char>>
    decreases searched.len(),
{
    if searched.len() == 0 {
        Seq::empty()
    } else {
        let before = ranked_paths(searched.drop_last(), cap);
        match searched.last() {
            Some(Ok(r)) => merged(before, crate::text::views(r.paths@), cap),
            _ => before,
        }
    }
}

/// Merging keeps what was there, in front; takes in every hit unless the
/// cap is reached; and brings in nothing that is neither.
proof fn merged_facts(paths: Seq<Seq<char>>, hits: Seq<Seq<char>>, cap: nat)
    ensures
        paths.is_prefix_of(merged(paths, hits, cap)),
        merged(paths, hits, cap).len() < cap ==> forall|k: int| 0 <= k < hits.len() ==> merged(paths, hits, cap).contains(#[trigger] hits[k]),
        forall|x: Seq<char>| #[trigger] merged(paths, hits, cap).contains(x) ==> paths.contains(x) || hits.contains(x),
    decreases hits.len(),
{
    let m = merged(paths, hits, cap);
    if hits.len() == 0 || paths.len() >= cap {
    } else {
        let rest = hits.drop_first();
        let next = if paths.contains(hits[0]) { paths } else { paths.push(hits[0]) };
        merged_facts(next, rest, cap);
        assert(m == merged(next, rest, cap));
        assert(paths.is_prefix_of(next));
        assert(next.contains(hits[0])) by {
            if !paths.contains(hits[0]) { assert(next[paths.len() as int] == hits[0]); }
        }
        assert(paths.is_prefix_of(m)) by {
            assert forall|t: int| 0 <= t < paths.len() implies paths[t] == m[t] by {
                assert(next[t] == paths[t]);
            }
        }
        assert(m.contains(hits[0])) by {
            let t = choose|t: int| 0 <= t < next.len() && next[t] == hits[0];
            assert(m[t] == next[t]);
        }
        assert forall|k: int| 0 <= k < hits.len() && m.len() < cap implies m.contains(#[trigger] hits[k]) by {
            if k > 0 { assert(rest[k - 1] == hits[k]); }
        }
        assert forall|x: Seq<char>| #[trigger] m.contains(x) implies paths.contains(x) || hits.contains(x) by {
            if next.contains(x) && !paths.contains(x) {
                let t = choose|t: int| 0 <= t < next.len() && next[t] == x;
                assert(t == paths.len());
                assert(hits[0] == x);
            }
            if rest.contains(x) {
                let t = choose|t: int| 0 <= t < rest.len() && rest[t] == x;
                assert(hits[t + 1] == x);
            }
        }
    }
}

/// A ranked search misses no workspace: the paths found in the first `i`
/// workspaces come first, in the same order; unless the cap is reached,
/// every hit of every workspace whose index could be searched is among the
/// results; and every result is a hit of some workspace.
pub proof fn every_workspace_contributes(searched: Seq<WorkspaceSearch>, cap: nat)
    ensures
        forall|i: int| 0 <= i <= searched.len() ==>
            (#[trigger] ranked_paths(searched.subrange(0, i), cap)).is_prefix_of(ranked_paths(searched, cap)),
        ranked_paths(searched, cap).len() < cap ==> forall|i: int, k: int|
            0 <= i < searched.len() && (#[trigger] searched[i]) is Some && searched[i]->0 is Ok
                && 0 <= k < searched[i]->0->Ok_0.paths@.len()
            ==> ranked_paths(searched, cap).contains(#[trigger] searched[i]->0->Ok_0.paths@[k]@),
        forall|x: Seq<char>| #[trigger] ranked_paths(searched, cap).contains(x) ==> exists|i: int|
            0 <= i < searched.len() && (#[trigger] searched[i]) is Some && searched[i]->0 is Ok
                && crate::text::views(searched[i]->0->Ok_0.paths@).contains(x),
    decreases searched.len(),
{
    if searched.len() > 0 {
        let prev = searched.drop_last();
        every_workspace_contributes(prev, cap);
        let before = ranked_paths(prev, cap);
        let all = ranked_paths(searched, cap);
        match searched.last() {
            Some(Ok(r)) => { merged_facts(before, crate::text::views(r.paths@), cap); },
            _ => {},
        }
        assert(before.is_prefix_of(all));
        assert forall|i: int| 0 <= i <= searched.len() implies
            (#[trigger] ranked_paths(searched.subrange(0, i), cap)).is_prefix_of(all) by {
            if i == searched.len() {
                assert(searched.subrange(0, i) =~= searched);
            } else {
                assert(searched.subrange(0, i) =~= prev.subrange(0, i));
                let a = ranked_paths(prev.subrange(0, i), cap);
                assert forall|t: int| 0 <= t < a.len() implies a[t] == all[t] by {
                    assert(a[t] == before[t]);
                }
            }
        }
        if all.len() < cap {
            assert(before.len() < cap);
            assert forall|i: int, k: int|
                0 <= i < searched.len() && (#[trigger] searched[i]) is Some && searched[i]->0 is Ok
                    && 0 <= k < searched[i]->0->Ok_0.paths@.len()
                implies all.contains(#[trigger] searched[i]->0->Ok_0.paths@[k]@) by {
                let p = searched[i]->0->Ok_0.paths@[k]@;
                if i < prev.len() {
                    assert(prev[i] == searched[i]);
                    assert(before.contains(p));
                    let t = choose|t: int| 0 <= t < before.len() && before[t] == p;
                    assert(all[t] == before[t]);
                } else {
                    assert(searched[i] == searched.last());
                    assert(crate::text::views(searched[i]->0->Ok_0.paths@)[k] == p);
                }
            }
        }
        assert forall|x: Seq<char>| #[trigger] all.contains(x) implies exists|i: int|
            0 <= i < searched.len() && (#[trigger] searched[i]) is Some && searched[i]->0 is Ok
                && crate::text::views(searched[i]->0->Ok_0.paths@).contains(x) by {
            if before.contains(x) {
                let i = choose|i: int| 0 <= i < prev.len() && (#[trigger] prev[i]) is Some && prev[i]->0 is Ok
                    && crate::text::views(prev[i]->0->Ok_0.paths@).contains(x);
                assert(searched[i] == prev[i]);
            } else {
                assert(searched[searched.len() - 1] == searched.last());
            }
        }
    }
}

/// The hits of a ranked search, with the workspaces it went through.
pub struct RankedHits {
    /// The hits, in the order found.
    pub hits: Vec<SearchHit>,
    /// The workspace directories listed, in order; none for an entry that
    /// could not be read.
    pub workspaces: Ghost<Seq<Option<Seq<char>>>>,
    /// What each listed workspace gave.
    pub searched: Ghost<Seq<WorkspaceSearch>>,
}

impl RankedHits {
    /// The number of hits.
    pub fn len(&self) -> (n: usize)
        ensures
            n == self.hits@.len(),
    {
        self.hits.len()
    }

    /// Whether there is no hit.
    pub fn is_empty(&self) -> (b: bool)
        ensures
            b == (self.hits@.len() == 0),
    {
        self.hits.len() == 0
    }
}

/// Every listed workspace was searched for `query` with limit `cap`: an
/// entry that could not be read gives nothing, any other gives what
/// searching the `tantivy` index inside it gave.
pub open spec fn all_workspaces_searched(h: RankedHits, query: Seq<char>, cap: nat) -> bool {
    &&& h.searched@.len() == h.workspaces@.len()
    &&& forall|i: int| 0 <= i < h.workspaces@.len() ==> {
        &&& (h.workspaces@[i] is None <==> (#[trigger] h.searched@[i]) is None)
        &&& (h.searched@[i] matches Some(Ok(r)) ==> {
            &&& r.dir() == crate::text::join_path(h.workspaces@[i]->0, "tantivy"@)
            &&& r.query() == query
            &&& r.paths@.len() <= cap
            &&& r.stored@.len() == r.matched@.len()
            &&& crate::text::views(r.paths@) == kept_paths(r.stored@)
        })
        &&& (h.searched@[i] matches Some(Err(crate::index::IndexError::Message(m))) ==> search_failure(m@))
    }
}

/// Ranked keyword search in the full-text indexes of all known workspaces.
///
/// The query is trimmed first; an empty query, or a limit of 0, finds
/// nothing and reads no index. Otherwise the index of every workspace is
/// searched in turn, and its hits, best first, are merged in workspace
/// order, each path once, until `min(limit, MAX_SEARCH_RESULTS)` results
/// are collected (see [`ranked_paths`]). A workspace is passed over only
/// when its entry cannot be read or its index cannot be searched.
pub fn ranked_search(query: &str, limit: usize) -> (r: Result<RankedHits, crate::index::IndexError>)
    ensures
        r is Ok,
        r matches Ok(v) ==> v.hits@.len() <= result_cap(limit),
        r matches Ok(v) ==> hit_paths(v.hits@).no_duplicates(),
        crate::text::trimmed(query@).len() == 0 ==> (r matches Ok(v) && v.hits@.len() == 0),
        limit == 0 ==> (r matches Ok(v) && v.hits@.len() == 0),
        r matches Ok(v) ==> hits_found_for(v.hits@, crate::text::trimmed(query@)),
        r matches Ok(v) ==> all_workspaces_searched(v, crate::text::trimmed(query@), result_cap(limit) as nat),
        r matches Ok(v) ==> hit_paths(v.hits@) == ranked_paths(v.searched@, result_cap(limit) as nat),
{
    let q = crate::text::trim(query);
    let mut out: Vec<SearchHit> = Vec::new();
    assert(hit_paths(out@) =~= Seq::<Seq<char>>::empty());
    let ghost none_listed: Seq<Option<Seq<char>>> = Seq::empty();
    let ghost none_searched: Seq<WorkspaceSearch> = Seq::empty();
    if q.as_str().is_empty() {
        return Ok(RankedHits { hits: out, workspaces: Ghost(none_listed), searched: Ghost(none_searched) });
    }
    let cap = if limit < MAX_SEARCH_RESULTS { limit } else { MAX_SEARCH_RESULTS };
    if cap == 0 {
        return Ok(RankedHits { hits: out, workspaces: Ghost(none_listed), searched: Ghost(none_searched) });
    }
    let data = match project_data_dir("dev", "esprit", "esprit") {
        Some(d) => d,
        None => return Ok(RankedHits { hits: out, workspaces: Ghost(none_listed), searched: Ghost(none_searched) }),
    };
    let workspaces = crate::text::join(data.as_str(), "workspaces");
    let entries = directory_entries(workspaces.as_str());
    let ghost listed: Seq<Option<Seq<char>>> =
        entries@.map_values(|e: Result<String, walkdir::Error>| match e { Ok(w) => Some(w@), Err(_) => None });
    let ghost mut searched: Seq<WorkspaceSearch> = Seq::empty();
    let mut i: usize = 0;
    while i < entries.len()
        invariant
            i <= entries.len(),
            cap == result_cap(limit),
            out@.len() <= cap,
            hit_paths(out@).no_duplicates(),
            q@ == crate::text::trimmed(query@),
            hits_found_for(out@, q@),
            listed == entries@.map_values(|e: Result<String, walkdir::Error>| match e { Ok(w) => Some(w@), Err(_) => None }),
            searched.len() == i,
            hit_paths(out@) == ranked_paths(searched, cap as nat),
            all_workspaces_searched(RankedHits { hits: out, workspaces: Ghost(listed.subrange(0, i as int)), searched: Ghost(searched) }, q@, cap as nat),
        decreases entries.len() - i,
    {
        let ghost before = searched;
        let ghost rec: WorkspaceSearch;
        match &entries[i] {
            Ok(w) => {
                let dir = crate::text::join(w.as_str(), "tantivy");
                let found = search_in_dir(dir.as_str(), q.as_str(), cap);
                proof { rec = Some(found); }
                match found {
                    Ok(hits) => {
                        assert(workspace_index(hits.dir())) by {
                            assert(hits.dir() == crate::text::join_path(w@, "tantivy"@));
                        }
                        merge_hits(&mut out, hits, cap);
                    },
                    Err(_) => {},
                }
            },
            Err(_) => {
                proof { rec = None; }
            },
        }
        proof {
            searched = before.push(rec);
            assert(searched.drop_last() =~= before);
            let h = RankedHits { hits: out, workspaces: Ghost(listed.subrange(0, i + 1)), searched: Ghost(searched) };
            assert forall|j: int| 0 <= j < h.workspaces@.len() implies {
                &&& (h.workspaces@[j] is None <==> (#[trigger] h.searched@[j]) is None)
                &&& (h.searched@[j] matches Some(Ok(r)) ==> {
                    &&& r.dir() == crate::text::join_path(h.workspaces@[j]->0, "tantivy"@)
                    &&& r.query() == q@
                    &&& r.paths@.len() <= cap
                    &&& r.stored@.len() == r.matched@.len()
                    &&& crate::text::views(r.paths@) == kept_paths(r.stored@)
                })
                &&& (h.searched@[j] matches Some(Err(crate::index::IndexError::Message(m))) ==> search_failure(m@))
            } by {
                if j < i {
                    assert(listed.subrange(0, i + 1)[j] == listed.subrange(0, i as int)[j]);
                    assert(searched[j] == before[j]);
                }
            }
        }
        i = i + 1;
    }
    assert(listed.subrange(0, i as int) =~= listed);
    Ok(RankedHits { hits: out, workspaces: Ghost(listed), searched: Ghost(searched) })
}

} // verus!

verus! {

/// At most this many hits come back from a search of one workspace.
pub const WORKSPACE_SEARCH_LIMIT: usize = 100;

/// The full-text index directory of the workspace with key `key` under the
/// data directory `data`: `data/workspaces/key/tantivy`.
pub open spec fn workspace_index_dir(data: Seq<char>, key: Seq<char>) -> Seq<char> {
    crate::text::join_path(crate::text::join_path(crate::text::join_path(data, "workspaces"@), key), "tantivy"@)
}

/// Exec counterpart of [`workspace_index_dir`].
pub fn index_dir(data: &str, key: &str) -> (d: String)
    ensures
        d@ == workspace_index_dir(data@, key@),
{
    let w = crate::text::join(data, "workspaces");
    let k = crate::text::join(w.as_str(), key);
    crate::text::join(k.as_str(), "tantivy")
}

/// Keyword search in the full-text index of the workspace rooted at `root`
/// (found by its [`workspace key`](crate::index::workspace_key)): the paths
/// of the best matches, best first, at most [`WORKSPACE_SEARCH_LIMIT`]
/// (see [`search_in_dir`]). Without a data directory the search fails.
pub fn search(root: &str, query: &str) -> (r: Result<SearchResults, crate::index::IndexError>)
    ensures
        r matches Ok(v) ==> {
            &&& v.query() == query@
            &&& exists|data: Seq<char>| v.dir() == #[trigger] workspace_index_dir(data, crate::index::workspace_key(root@))
            &&& v.paths@.len() <= WORKSPACE_SEARCH_LIMIT
            &&& found_paths(crate::text::views(v.paths@), WORKSPACE_SEARCH_LIMIT as nat)
        },
        r matches Err(crate::index::IndexError::Message(m)) ==>
            m@ == "unable to determine data directory"@ || search_failure(m@),
{
    let data = match project_data_dir("dev", "esprit", "esprit") {
        Some(d) => d,
        None => return Err(crate::index::IndexError::Message("unable to determine data directory".to_string())),
    };
    let key = crate::index::get_workspace_hash(root);
    let dir = index_dir(data.as_str(), key.as_str());
    let r = search_in_dir(dir.as_str(), query, WORKSPACE_SEARCH_LIMIT);
    assert(dir@ == workspace_index_dir(data@, crate::index::workspace_key(root@)));
    r
}

} // verus!
