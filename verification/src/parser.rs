//! The example-line parser. A line has the shape
//! `[label] [tag] ('|' namespace-section)*`: an optional floating-point
//! label, an optional tag, and any number of namespace sections, each with
//! an optional name and a run of feature tokens.
//!
//! Parsing runs in two stages, both verified. [`VWParser::parse`] tokenizes
//! the line against the grammar and yields a [`ParseTree`]; [`process`]
//! hashes the tree's names into feature ids and accumulates them into a
//! [`Features`] value. [`parse_line`] composes the two.

use vstd::prelude::*;
use vstd::string::StringSliceAdditionalSpecFns;

use crate::error::{ParseError, ParseErrorModel};
use crate::hash::{uniform_hash, uniform_hash_spec};
use crate::lex::{
    first_colon, is_float_literal, is_float_literal_bytes, is_ws, is_ws_byte, split_bar, split_ws,
    split_on_bar, split_on_ws, strip_quote, strip_quote_bytes, view_vecs,
    lemma_split_bar_nonempty, lemma_split_bar_no_bar, lemma_split_ws_first, find_colon,
    BYTE_ONE, BYTE_BAR,
};

verus! {

/// The slot byte of a namespace section that carries no name; also that
/// section's hash seed stand-in, a value fixed by the data format.
pub const DEFAULT_NAMESPACE: u8 = 32;

/// The spec-level image of a [`FeatureToken`].
pub enum FeatureTokenModel {
    Named { name: Seq<u8>, value: Option<Seq<u8>> },
    Anonymous { literal: Seq<u8> },
}

/// One feature token of a namespace section.
///
/// A token with a `:` splits there into a name and a value text; a bare
/// token that reads as a floating-point literal is an anonymous feature; any
/// other bare token is a name whose value defaults to 1.
#[derive(Debug, PartialEq, Eq)]
pub enum FeatureToken {
    Named { name: Vec<u8>, value: Option<Vec<u8>> },
    Anonymous { literal: Vec<u8> },
}

impl View for FeatureToken {
    type V = FeatureTokenModel;

    open spec fn view(&self) -> FeatureTokenModel {
        match self {
            FeatureToken::Named { name, value } => FeatureTokenModel::Named {
                name: name@,
                value: match value {
                    Some(v) => Some(v@),
                    None => None,
                },
            },
            FeatureToken::Anonymous { literal } => FeatureTokenModel::Anonymous {
                literal: literal@,
            },
        }
    }
}

/// The views of a vector of feature tokens.
pub open spec fn view_tokens(r: Seq<FeatureToken>) -> Seq<FeatureTokenModel> {
    r.map_values(|ft: FeatureToken| ft@)
}

/// How one whitespace-delimited token reads as a feature token.
pub open spec fn classify_token(t: Seq<u8>) -> FeatureTokenModel {
    let p = first_colon(t);
    if p >= 0 {
        FeatureTokenModel::Named { name: t.take(p), value: Some(t.skip(p + 1)) }
    } else if is_float_literal(t) {
        FeatureTokenModel::Anonymous { literal: t }
    } else {
        FeatureTokenModel::Named { name: t, value: None }
    }
}

/// The feature tokens read off a list of whitespace-delimited tokens.
pub open spec fn namespace_features(toks: Seq<Seq<u8>>) -> Seq<FeatureTokenModel> {
    toks.map_values(|t: Seq<u8>| classify_token(t))
}

/// Reads one whitespace-delimited token as a feature token.
fn classify_token_bytes(t: Vec<u8>) -> (r: FeatureToken)
    ensures
        r@ == classify_token(t@),
{
    let tlen = t.len();
    match find_colon(t.as_slice()) {
        Some(j) => {
            proof {
                assert(j < t@.len());
            }
            let name = vstd::slice::slice_to_vec(vstd::slice::slice_subrange(t.as_slice(), 0, j));
            let value = vstd::slice::slice_to_vec(
                vstd::slice::slice_subrange(t.as_slice(), j + 1, tlen),
            );
            proof {
                assert(name@ =~= t@.take(first_colon(t@)));
                assert(value@ =~= t@.skip(first_colon(t@) + 1));
            }
            FeatureToken::Named { name, value: Some(value) }
        },
        None => {
            if is_float_literal_bytes(t.as_slice()) {
                FeatureToken::Anonymous { literal: t }
            } else {
                FeatureToken::Named { name: t, value: None }
            }
        },
    }
}

/// Reads each whitespace-delimited token of `toks` as a feature token.
fn classify_all(toks: Vec<Vec<u8>>) -> (r: Vec<FeatureToken>)
    ensures
        view_tokens(r@) == namespace_features(view_vecs(toks@)),
{
    let ghost all = view_vecs(toks@);
    let mut rest = toks;
    let mut out: Vec<FeatureToken> = Vec::new();
    while rest.len() > 0
        invariant
            view_tokens(out@) + namespace_features(view_vecs(rest@)) == namespace_features(all),
        decreases rest.len(),
    {
        let t = rest.remove(0);
        let ft = classify_token_bytes(t);
        out.push(ft);
        proof {
            assert(view_tokens(out@) + namespace_features(view_vecs(rest@)) =~~= namespace_features(
                all,
            ));
        }
    }
    proof {
        assert(view_tokens(out@) =~~= namespace_features(all));
    }
    out
}

/// Tokenizes the body of one namespace section into feature tokens.
///
/// Only the whitespace-separated token list matters: leading, trailing and
/// repeated whitespace inside `body` leave the result unchanged, which
/// [`lemma_namespace_whitespace_insensitive`] states in general.
pub fn parse_namespace(body: &str) -> (r: Vec<FeatureToken>)
    ensures
        view_tokens(r@) == namespace_features(split_ws(body.spec_bytes())),
{
    classify_all(split_on_ws(body.as_bytes()))
}

/// Feature tokenization reads nothing but the whitespace-separated token
/// list: two namespace bodies that split into the same tokens — however
/// much whitespace stands around them — carry the same feature tokens.
pub proof fn lemma_namespace_whitespace_insensitive(s1: Seq<u8>, s2: Seq<u8>)
    requires
        split_ws(s1) == split_ws(s2),
    ensures
        namespace_features(split_ws(s1)) == namespace_features(split_ws(s2)),
{
}

/// The spec-level image of a [`NamespaceTokens`].
pub struct NamespaceTokensModel {
    pub name: Option<Seq<u8>>,
    pub tokens: Seq<FeatureTokenModel>,
}

/// One tokenized namespace section: its name, when one stands right after
/// the `|`, and its feature tokens.
#[derive(Debug, PartialEq, Eq)]
pub struct NamespaceTokens {
    pub name: Option<Vec<u8>>,
    pub tokens: Vec<FeatureToken>,
}

impl View for NamespaceTokens {
    type V = NamespaceTokensModel;

    open spec fn view(&self) -> NamespaceTokensModel {
        NamespaceTokensModel {
            name: match &self.name {
                Some(n) => Some(n@),
                None => None,
            },
            tokens: view_tokens(self.tokens@),
        }
    }
}

/// The views of a vector of tokenized namespace sections.
pub open spec fn view_namespaces(r: Seq<NamespaceTokens>) -> Seq<NamespaceTokensModel> {
    r.map_values(|ns: NamespaceTokens| ns@)
}

/// How one `|`-delimited section tokenizes: a section whose first byte is
/// not whitespace opens with its name; everything after is feature tokens.
pub open spec fn namespace_tokens(sec: Seq<u8>) -> NamespaceTokensModel {
    let toks = split_ws(sec);
    if sec.len() > 0 && !is_ws(sec[0]) {
        NamespaceTokensModel { name: Some(toks[0]), tokens: namespace_features(toks.drop_first()) }
    } else {
        NamespaceTokensModel { name: None, tokens: namespace_features(toks) }
    }
}

/// The spec-level image of a [`ParseTree`].
pub struct ParseTreeModel {
    pub label: Option<Seq<u8>>,
    pub tag: Option<Seq<u8>>,
    pub namespaces: Seq<NamespaceTokensModel>,
}

/// A fully tokenized line: the optional label and tag from the text before
/// the first `|`, and one [`NamespaceTokens`] per section after it.
#[derive(Debug, PartialEq, Eq)]
pub struct ParseTree {
    pub label: Option<Vec<u8>>,
    pub tag: Option<Vec<u8>>,
    pub namespaces: Vec<NamespaceTokens>,
}

impl View for ParseTree {
    type V = ParseTreeModel;

    open spec fn view(&self) -> ParseTreeModel {
        ParseTreeModel {
            label: match &self.label {
                Some(l) => Some(l@),
                None => None,
            },
            tag: match &self.tag {
                Some(t) => Some(t@),
                None => None,
            },
            namespaces: view_namespaces(self.namespaces@),
        }
    }
}

/// How the label/tag section reads. The first token is the label when it is
/// a floating-point literal; at most one further token — the tag, its one
/// leading quote stripped — may follow. `Err` carries the first token that
/// the grammar has no place for.
pub open spec fn label_tag(sec: Seq<u8>) -> Result<(Option<Seq<u8>>, Option<Seq<u8>>), Seq<u8>> {
    let toks = split_ws(sec);
    if toks.len() == 0 {
        Ok((None, None))
    } else {
        let has_label = is_float_literal(toks[0]);
        let label = if has_label {
            Some(toks[0])
        } else {
            None
        };
        let rest = if has_label {
            toks.drop_first()
        } else {
            toks
        };
        if rest.len() == 0 {
            Ok((label, None))
        } else if rest.len() == 1 {
            Ok((label, Some(strip_quote(rest[0]))))
        } else {
            Err(rest[1])
        }
    }
}

/// How a whole line tokenizes: the section before the first `|` as
/// label/tag, every later section as a namespace. The one grammar failure
/// is leftover input in the label/tag section.
pub open spec fn parse_tree(s: Seq<u8>) -> Result<ParseTreeModel, ParseErrorModel> {
    let secs = split_bar(s);
    match label_tag(secs[0]) {
        Err(tok) => Err(ParseErrorModel::IncompleteParse { token: tok }),
        Ok(lt) => Ok(
            ParseTreeModel {
                label: lt.0,
                tag: lt.1,
                namespaces: secs.drop_first().map_values(|sec: Seq<u8>| namespace_tokens(sec)),
            },
        ),
    }
}

/// The grammar front end: tokenizes one line, without hashing anything.
pub struct VWParser;

impl VWParser {
    /// Tokenizes `line` against the example grammar.
    ///
    /// Succeeds if and only if the grammar consumes the whole line; the one
    /// refusal is a [`ParseError::IncompleteParse`] for a token left over
    /// in the label/tag section.
    pub fn parse(line: &str) -> (r: Result<ParseTree, ParseError>)
        ensures
            match r {
                Ok(tree) => parse_tree(line.spec_bytes()) == Ok::<ParseTreeModel, ParseErrorModel>(
                    tree@,
                ),
                Err(e) => parse_tree(line.spec_bytes()) == Err::<ParseTreeModel, ParseErrorModel>(
                    e@,
                ),
            },
    {
        Self::parse_bytes(line.as_bytes())
    }

    /// Tokenizes one line given as bytes; the byte-level core of
    /// [`VWParser::parse`].
    pub fn parse_bytes(line: &[u8]) -> (r: Result<ParseTree, ParseError>)
        ensures
            match r {
                Ok(tree) => parse_tree(line@) == Ok::<ParseTreeModel, ParseErrorModel>(tree@),
                Err(e) => parse_tree(line@) == Err::<ParseTreeModel, ParseErrorModel>(e@),
            },
    {
        let ghost secs_model = split_bar(line@);
        proof {
            lemma_split_bar_nonempty(line@);
        }
        let mut secs = split_on_bar(line);

        // Label and tag from the first section.
        let first = secs.remove(0);
        let mut toks0 = split_on_ws(first.as_slice());
        let ghost toks0_model = split_ws(secs_model[0]);
        let mut label: Option<Vec<u8>> = None;
        let mut tag: Option<Vec<u8>> = None;
        if toks0.len() > 0 {
            let has_label = is_float_literal_bytes(toks0[0].as_slice());
            let rest_start: usize = if has_label {
                1
            } else {
                0
            };
            let nrest = toks0.len() - rest_start;
            if nrest >= 2 {
                let token = toks0.remove(rest_start + 1);
                proof {
                    if has_label {
                        assert(token@ == toks0_model.drop_first()[1]);
                    }
                }
                return Err(ParseError::IncompleteParse { token });
            }
            if nrest == 1 {
                tag = Some(strip_quote_bytes(&toks0[rest_start]));
                proof {
                    if has_label {
                        assert(toks0_model.drop_first()[0] == toks0_model[1]);
                    }
                }
            }
            if has_label {
                label = Some(toks0.remove(0));
            }
        }

        // One tokenized namespace per remaining section.
        let mut namespaces: Vec<NamespaceTokens> = Vec::new();
        let n = secs.len();
        proof {
            assert(view_vecs(secs@) =~= secs_model.drop_first());
        }
        for si in 0..n
            invariant
                n == secs@.len(),
                view_vecs(secs@) == secs_model.drop_first(),
                view_namespaces(namespaces@) == secs_model.drop_first().take(si as int).map_values(
                    |sec: Seq<u8>| namespace_tokens(sec),
                ),
        {
            let sec = &secs[si];
            let ghost sec_model = secs_model.drop_first()[si as int];
            proof {
                assert(view_vecs(secs@)[si as int] == secs@[si as int]@);
                assert(sec@ == sec_model);
            }
            let mut toks = split_on_ws(sec.as_slice());
            let ghost toks_model = split_ws(sec_model);
            let named = sec.len() > 0 && !is_ws_byte(sec[0]);
            let name: Option<Vec<u8>> = if named {
                proof {
                    lemma_split_ws_first(sec_model);
                    assert(view_vecs(toks@).len() == toks_model.len());
                }
                let first_tok = toks.remove(0);
                proof {
                    assert(first_tok@ == toks_model[0]);
                    assert(view_vecs(toks@) =~= toks_model.drop_first());
                }
                Some(first_tok)
            } else {
                None
            };
            let tokens = classify_all(toks);
            let ghost before_ns = namespaces@;
            namespaces.push(NamespaceTokens { name, tokens });
            proof {
                let pushed = namespaces@.last();
                if named {
                    assert(pushed@.name == Some(toks_model[0]));
                    assert(pushed@.tokens == namespace_features(toks_model.drop_first()));
                } else {
                    assert(pushed@.name == Option::<Seq<u8>>::None);
                    assert(pushed@.tokens == namespace_features(toks_model));
                }
                assert(pushed@ == namespace_tokens(sec_model));
                let goal = secs_model.drop_first().take(si + 1).map_values(
                    |sec: Seq<u8>| namespace_tokens(sec),
                );
                assert(view_namespaces(before_ns).len() == before_ns.len());
                assert(before_ns.len() == si as int);
                assert(namespaces@ == before_ns.push(namespaces@.last()));
                assert forall|i2: int| 0 <= i2 < si + 1 implies view_namespaces(namespaces@)[i2]
                    == goal[i2] by {
                    if i2 < si {
                        assert(view_namespaces(before_ns)[i2] == secs_model.drop_first().take(
                            si as int,
                        ).map_values(|sec: Seq<u8>| namespace_tokens(sec))[i2]);
                        assert(namespaces@[i2] == before_ns[i2]);
                    } else {
                        assert(namespaces@[i2] == namespaces@.last());
                        assert(view_namespaces(namespaces@)[i2] == pushed@);
                    }
                }
                assert(view_namespaces(namespaces@) =~= goal);
            }
        }
        proof {
            assert(secs_model.drop_first().take(n as int) =~= secs_model.drop_first());
        }
        let tree = ParseTree { label, tag, namespaces };
        proof {
            assert(parse_tree(line@) matches Ok(m) && m == tree@) by {
                assert(secs_model.drop_first().map_values(|sec: Seq<u8>| namespace_tokens(sec))
                    =~= view_namespaces(tree.namespaces@));
            }
        }
        Ok(tree)
    }
}

/// The view of an optional byte vector.
pub open spec fn view_opt(o: Option<Vec<u8>>) -> Option<Seq<u8>> {
    match o {
        Some(v) => Some(v@),
        None => None,
    }
}

/// The spec-level image of a [`Features`] value.
#[verifier::ext_equal]
pub struct FeaturesModel {
    pub namespace_indices: Seq<u8>,
    pub feature_spaces: Seq<Seq<(u64, Seq<u8>)>>,
}

/// One namespace slot's features: `(feature id, value literal)` pairs in
/// insertion order. The value is carried as the validated numeric literal
/// it was written as; a defaulted value is the literal `1`.
#[derive(Debug, PartialEq, Eq)]
pub struct FeatureSpace {
    pub values: Vec<(u64, Vec<u8>)>,
}

impl View for FeatureSpace {
    type V = Seq<(u64, Seq<u8>)>;

    open spec fn view(&self) -> Seq<(u64, Seq<u8>)> {
        self.values@.map_values(|p: (u64, Vec<u8>)| (p.0, p.1@))
    }
}

impl FeatureSpace {
    /// An empty slot.
    pub fn new() -> (r: FeatureSpace)
        ensures
            r@ == Seq::<(u64, Seq<u8>)>::empty(),
    {
        let r = FeatureSpace { values: Vec::new() };
        proof {
            assert(r@ =~= Seq::<(u64, Seq<u8>)>::empty());
        }
        r
    }
}

/// The hashed features of one line: the slot bytes in order of appearance
/// (duplicates kept), and 256 feature-space slots indexed by slot byte.
#[derive(Debug, PartialEq, Eq)]
pub struct Features {
    pub namespace_indices: Vec<u8>,
    pub feature_spaces: Vec<FeatureSpace>,
}

impl View for Features {
    type V = FeaturesModel;

    open spec fn view(&self) -> FeaturesModel {
        FeaturesModel {
            namespace_indices: self.namespace_indices@,
            feature_spaces: self.feature_spaces@.map_values(|fs: FeatureSpace| fs@),
        }
    }
}

/// The features of a freshly constructed, untouched [`Features`] value.
pub open spec fn empty_features() -> FeaturesModel {
    FeaturesModel {
        namespace_indices: Seq::empty(),
        feature_spaces: Seq::new(256, |i: int| Seq::empty()),
    }
}

impl Features {
    /// The shape every [`Features`] value keeps: one feature space per
    /// possible slot byte.
    pub open spec fn wf(self) -> bool {
        self.feature_spaces@.len() == 256
    }

    /// A fresh value with every slot empty.
    pub fn new() -> (r: Features)
        ensures
            r.wf(),
            r@ == empty_features(),
    {
        let mut feature_spaces: Vec<FeatureSpace> = Vec::new();
        for i in 0..256usize
            invariant
                feature_spaces@.len() == i,
                forall|j: int|
                    0 <= j < i ==> feature_spaces@[j]@ == Seq::<(u64, Seq<u8>)>::empty(),
        {
            feature_spaces.push(FeatureSpace::new());
        }
        let r = Features { namespace_indices: Vec::new(), feature_spaces };
        proof {
            assert(r@ =~~= empty_features());
        }
        r
    }
}

impl Default for Features {
    /// Same as [`Features::new`].
    fn default() -> (r: Features)
        ensures
            r.wf(),
            r@ == empty_features(),
    {
        Features::new()
    }
}

/// The slot byte a namespace name addresses: its first byte, or the default
/// slot for an empty name.
pub open spec fn slot_of_name(name: Seq<u8>) -> u8 {
    if name.len() > 0 {
        name[0]
    } else {
        DEFAULT_NAMESPACE
    }
}

/// Slot addressing reads only the first byte of a namespace name: two names
/// that share it always land in the same feature-space slot. The collision
/// is intentional — the addressing scheme collapses namespace identity to
/// one byte.
pub proof fn lemma_same_first_byte_same_slot(n1: Seq<u8>, n2: Seq<u8>)
    requires
        n1.len() > 0,
        n2.len() > 0,
        n1[0] == n2[0],
    ensures
        slot_of_name(n1) == slot_of_name(n2),
{
}

/// The slot byte of a section: from its name, or the default slot when it
/// has none.
pub open spec fn namespace_slot(name: Option<Seq<u8>>) -> u8 {
    match name {
        Some(n) => slot_of_name(n),
        None => DEFAULT_NAMESPACE,
    }
}

/// The hash seed a section's feature names are hashed under: the name's
/// hash under the caller's seed, or the fixed default-namespace value for a
/// nameless section.
pub open spec fn namespace_seed(name: Option<Seq<u8>>, seed: u64) -> u64 {
    match name {
        Some(n) => uniform_hash_spec(n, seed),
        None => DEFAULT_NAMESPACE as u64,
    }
}

/// Anonymous feature ids inside one namespace never collide with each
/// other: the counter offsets the namespace hash by distinct amounts, and
/// offsetting a 64-bit value by two different amounts under 2^64 cannot
/// meet. (Nothing rules out a collision with a named feature's hash; the
/// numbering scheme is kept as the data format fixes it.)
pub proof fn lemma_anonymous_ids_distinct(ns_hash: u64, a: u64, b: u64)
    requires
        a != b,
    ensures
        vstd::wrapping::u64_specs::wrapping_add(ns_hash, a)
            != vstd::wrapping::u64_specs::wrapping_add(ns_hash, b),
{
}

/// How one feature token materializes under a namespace hash and a running
/// anonymous counter: `Ok` carries the `(id, value literal)` pair and the
/// counter after the token; `Err` carries a value text that is not a
/// floating-point literal.
pub open spec fn feature_of_token(t: FeatureTokenModel, ns_hash: u64, anon: u64) -> Result<
    ((u64, Seq<u8>), u64),
    Seq<u8>,
> {
    match t {
        FeatureTokenModel::Named { name, value } => match value {
            Some(v) => if is_float_literal(v) {
                Ok(((uniform_hash_spec(name, ns_hash), v), anon))
            } else {
                Err(v)
            },
            None => Ok(((uniform_hash_spec(name, ns_hash), seq![BYTE_ONE]), anon)),
        },
        FeatureTokenModel::Anonymous { literal } => Ok(
            (
                (vstd::wrapping::u64_specs::wrapping_add(ns_hash, anon), literal),
                vstd::wrapping::u64_specs::wrapping_add(anon, 1),
            ),
        ),
    }
}

/// Folds a namespace's feature tokens into its slot's feature space.
/// `k` numbers the tokens for error reporting; `Err` carries the index and
/// text of the first malformed value.
pub open spec fn run_tokens(
    space: Seq<(u64, Seq<u8>)>,
    toks: Seq<FeatureTokenModel>,
    k: int,
    ns_hash: u64,
    anon: u64,
) -> Result<Seq<(u64, Seq<u8>)>, (int, Seq<u8>)>
    decreases toks.len(),
{
    if toks.len() == 0 {
        Ok(space)
    } else {
        match feature_of_token(toks[0], ns_hash, anon) {
            Err(v) => Err((k, v)),
            Ok(r) => run_tokens(space.push(r.0), toks.drop_first(), k + 1, ns_hash, r.1),
        }
    }
}

/// How one tokenized namespace section changes the accumulated features:
/// its slot byte is appended to the index list and its materialized
/// features to that slot's space. `section` is the section's position on
/// the line, for error reporting.
pub open spec fn apply_namespace(
    m: FeaturesModel,
    ns: NamespaceTokensModel,
    section: int,
    seed: u64,
) -> Result<FeaturesModel, ParseErrorModel> {
    let idx = namespace_slot(ns.name);
    let ns_hash = namespace_seed(ns.name, seed);
    match run_tokens(m.feature_spaces[idx as int], ns.tokens, 0, ns_hash, 0) {
        Ok(space) => Ok(
            FeaturesModel {
                namespace_indices: m.namespace_indices.push(idx),
                feature_spaces: m.feature_spaces.update(idx as int, space),
            },
        ),
        Err(e) => Err(
            ParseErrorModel::MalformedNumber { token: e.1, section, token_index: e.0 },
        ),
    }
}

/// Folds every namespace section of a line into the features, left to
/// right, stopping at the first malformed value.
pub open spec fn run_namespaces(
    m: FeaturesModel,
    nss: Seq<NamespaceTokensModel>,
    section: int,
    seed: u64,
) -> Result<FeaturesModel, ParseErrorModel>
    decreases nss.len(),
{
    if nss.len() == 0 {
        Ok(m)
    } else {
        match apply_namespace(m, nss[0], section, seed) {
            Ok(m2) => run_namespaces(m2, nss.drop_first(), section + 1, seed),
            Err(e) => Err(e),
        }
    }
}

/// The features of a tokenized line: every namespace section folded into a
/// fresh [`Features`] value. Namespace sections count from 1 in error
/// positions, the label/tag section being section 0.
pub open spec fn features_of_tree(t: ParseTreeModel, seed: u64) -> Result<
    FeaturesModel,
    ParseErrorModel,
> {
    run_namespaces(empty_features(), t.namespaces, 1, seed)
}

/// The whole pipeline on one line: tokenize, then materialize. A line
/// parses if and only if its label/tag section has no leftover token and
/// every feature value text is a floating-point literal; there is no
/// partial result.
pub open spec fn parse_line_spec(s: Seq<u8>, seed: u64) -> Result<FeaturesModel, ParseErrorModel> {
    match parse_tree(s) {
        Ok(t) => features_of_tree(t, seed),
        Err(e) => Err(e),
    }
}

/// A line without `|` has no namespace sections: whenever it parses, the
/// result records no namespace index and leaves every feature slot empty,
/// and whether it parses is decided by label/tag extraction alone.
pub proof fn lemma_no_bar_line(s: Seq<u8>, seed: u64)
    requires
        forall|i: int| 0 <= i < s.len() ==> s[i] != BYTE_BAR,
    ensures
        parse_line_spec(s, seed) matches Ok(m) ==> m == empty_features(),
        parse_line_spec(s, seed) is Ok <==> label_tag(s) is Ok,
{
    lemma_split_bar_no_bar(s);
    assert(split_bar(s)[0] == s);
    assert(split_bar(s).drop_first() =~= Seq::<Seq<u8>>::empty());
    assert(split_bar(s).drop_first().map_values(|sec: Seq<u8>| namespace_tokens(sec)) =~= Seq::<
        NamespaceTokensModel,
    >::empty());
}

/// Materializes one feature token, as [`to_feature`]'s body; original
/// signature kept there.
///
/// On success the result pairs the feature id with the value literal and
/// advances the anonymous counter past the token; a value text that is not
/// a floating-point literal comes back as the error.
pub fn to_feature(
    token: &FeatureToken,
    namespace_hash: u64,
    anonymous_counter: &mut u64,
) -> (r: Result<(u64, Vec<u8>), Vec<u8>>)
    ensures
        match r {
            Ok(f) => feature_of_token(token@, namespace_hash, *old(anonymous_counter)) == Ok::<
                ((u64, Seq<u8>), u64),
                Seq<u8>,
            >(((f.0, f.1@), *final(anonymous_counter))),
            Err(v) => feature_of_token(token@, namespace_hash, *old(anonymous_counter)) == Err::<
                ((u64, Seq<u8>), u64),
                Seq<u8>,
            >(v@) && *final(anonymous_counter) == *old(anonymous_counter),
        },
{
    match token {
        FeatureToken::Named { name, value } => {
            let id = uniform_hash(name.as_slice(), namespace_hash);
            match value {
                Some(v) => {
                    if is_float_literal_bytes(v.as_slice()) {
                        Ok((id, vstd::slice::slice_to_vec(v.as_slice())))
                    } else {
                        Err(vstd::slice::slice_to_vec(v.as_slice()))
                    }
                },
                None => {
                    let mut one: Vec<u8> = Vec::new();
                    one.push(BYTE_ONE);
                    proof {
                        assert(one@ =~= seq![BYTE_ONE]);
                    }
                    Ok((id, one))
                },
            }
        },
        FeatureToken::Anonymous { literal } => {
            let id = namespace_hash.wrapping_add(*anonymous_counter);
            *anonymous_counter = anonymous_counter.wrapping_add(1);
            Ok((id, vstd::slice::slice_to_vec(literal.as_slice())))
        },
    }
}

/// Materializes a tokenized line into its hashed features.
///
/// Succeeds if and only if every feature value text in the tree is a
/// floating-point literal; the first that is not comes back as a
/// [`ParseError::MalformedNumber`] carrying its section and token position,
/// and no partial result is returned.
#[verifier::rlimit(60)]
pub fn process(tree: &ParseTree, hash_seed: u64) -> (r: Result<Features, ParseError>)
    ensures
        match r {
            Ok(f) => f.wf() && features_of_tree(tree@, hash_seed) == Ok::<
                FeaturesModel,
                ParseErrorModel,
            >(f@),
            Err(e) => features_of_tree(tree@, hash_seed) == Err::<FeaturesModel, ParseErrorModel>(
                e@,
            ),
        },
{
    let mut features = Features::new();
    let ghost all = view_namespaces(tree.namespaces@);
    let n = tree.namespaces.len();
    proof {
        assert(all.skip(0) =~= all);
    }
    for si in 0..n
        invariant
            n == tree.namespaces@.len(),
            all == view_namespaces(tree.namespaces@),
            features.wf(),
            run_namespaces(empty_features(), all, 1, hash_seed) == run_namespaces(
                features@,
                all.skip(si as int),
                1 + si as int,
                hash_seed,
            ),
    {
        let ghost m_entry = features@;
        let ns = &tree.namespaces[si];
        let (idx, ns_hash): (u8, u64) = match &ns.name {
            Some(name) => {
                let slot = if name.len() > 0 {
                    name[0]
                } else {
                    DEFAULT_NAMESPACE
                };
                (slot, uniform_hash(name.as_slice(), hash_seed))
            },
            None => (DEFAULT_NAMESPACE, DEFAULT_NAMESPACE as u64),
        };
        proof {
            assert(idx == namespace_slot(all[si as int].name));
            assert(ns_hash == namespace_seed(all[si as int].name, hash_seed));
        }
        features.namespace_indices.push(idx);
        let ghost toks_m = all[si as int].tokens;
        let ghost space0 = m_entry.feature_spaces[idx as int];
        let mut anon: u64 = 0;
        let nt = ns.tokens.len();
        proof {
            assert(toks_m.skip(0) =~= toks_m);
            assert(features@.feature_spaces =~~= m_entry.feature_spaces.update(
                idx as int,
                features@.feature_spaces[idx as int],
            ));
        }
        for ti in 0..nt
            invariant
                n == tree.namespaces@.len(),
                si < n,
                all == view_namespaces(tree.namespaces@),
                all.len() == n,
                nt == tree.namespaces@[si as int].tokens@.len(),
                toks_m == all[si as int].tokens,
                toks_m.len() == nt,
                features.wf(),
                (idx as int) < 256,
                m_entry.feature_spaces.len() == 256,
                idx == namespace_slot(all[si as int].name),
                ns_hash == namespace_seed(all[si as int].name, hash_seed),
                space0 == m_entry.feature_spaces[idx as int],
                run_namespaces(empty_features(), all, 1, hash_seed) == run_namespaces(
                    m_entry,
                    all.skip(si as int),
                    1 + si as int,
                    hash_seed,
                ),
                features@.namespace_indices == m_entry.namespace_indices.push(idx),
                features@.feature_spaces == m_entry.feature_spaces.update(
                    idx as int,
                    features@.feature_spaces[idx as int],
                ),
                run_tokens(space0, toks_m, 0, ns_hash, 0) == run_tokens(
                    features@.feature_spaces[idx as int],
                    toks_m.skip(ti as int),
                    ti as int,
                    ns_hash,
                    anon,
                ),
        {
            let token = &tree.namespaces[si].tokens[ti];
            proof {
                assert(token@ == toks_m[ti as int]);
                assert(toks_m.skip(ti as int)[0] == toks_m[ti as int]);
                assert(toks_m.skip(ti as int).drop_first() =~= toks_m.skip(ti + 1));
            }
            match to_feature(token, ns_hash, &mut anon) {
                Ok(f) => {
                    let ghost before = features@;
                    features.feature_spaces[idx as usize].values.push(f);
                    proof {
                        assert(features@.feature_spaces =~~= before.feature_spaces.update(
                            idx as int,
                            before.feature_spaces[idx as int].push((f.0, f.1@)),
                        ));
                        assert(features@.feature_spaces[idx as int]
                            == before.feature_spaces[idx as int].push((f.0, f.1@)));
                        assert(features@.feature_spaces =~~= m_entry.feature_spaces.update(
                            idx as int,
                            features@.feature_spaces[idx as int],
                        ));
                    }
                },
                Err(v) => {
                    proof {
                        assert(run_tokens(space0, toks_m, 0, ns_hash, 0) == Err::<
                            Seq<(u64, Seq<u8>)>,
                            (int, Seq<u8>),
                        >((ti as int, v@)));
                        assert(apply_namespace(m_entry, all[si as int], 1 + si as int, hash_seed)
                            matches Err(e2) && e2 == (ParseErrorModel::MalformedNumber {
                            token: v@,
                            section: 1 + si as int,
                            token_index: ti as int,
                        }));
                        assert(all.skip(si as int)[0] == all[si as int]);
                        assert(features_of_tree(tree@, hash_seed) == Err::<
                            FeaturesModel,
                            ParseErrorModel,
                        >(
                            ParseErrorModel::MalformedNumber {
                                token: v@,
                                section: 1 + si as int,
                                token_index: ti as int,
                            },
                        ));
                    }
                    return Err(
                        ParseError::MalformedNumber {
                            token: v,
                            section: si + 1,
                            token_index: ti,
                        },
                    );
                },
            }
        }
        proof {
            assert(toks_m.skip(nt as int) =~= Seq::<FeatureTokenModel>::empty());
            assert(run_tokens(space0, toks_m, 0, ns_hash, 0) == Ok::<
                Seq<(u64, Seq<u8>)>,
                (int, Seq<u8>),
            >(features@.feature_spaces[idx as int]));
            assert(apply_namespace(m_entry, all[si as int], 1 + si as int, hash_seed) matches Ok(
                m2,
            ) && m2 =~~= features@) by {
                assert(m_entry.feature_spaces.update(
                    idx as int,
                    features@.feature_spaces[idx as int],
                ) =~~= features@.feature_spaces);
            }
            assert(all.skip(si as int)[0] == all[si as int]);
            assert(all.skip(si as int).drop_first() =~= all.skip(si + 1));
        }
    }
    proof {
        assert(all.skip(n as int) =~= Seq::<NamespaceTokensModel>::empty());
    }
    Ok(features)
}

/// Parses one line into its hashed features under `hash_seed`.
///
/// Succeeds if and only if the label/tag section has no leftover token and
/// every feature value text is a floating-point literal; the result is
/// exactly [`parse_line_spec`] of the line's bytes, and on failure no
/// partial [`Features`] value is returned.
pub fn parse_line(line: &str, hash_seed: u64) -> (r: Result<Features, ParseError>)
    ensures
        match r {
            Ok(f) => f.wf() && parse_line_spec(line.spec_bytes(), hash_seed) == Ok::<
                FeaturesModel,
                ParseErrorModel,
            >(f@),
            Err(e) => parse_line_spec(line.spec_bytes(), hash_seed) == Err::<
                FeaturesModel,
                ParseErrorModel,
            >(e@),
        },
{
    match VWParser::parse(line) {
        Ok(tree) => process(&tree, hash_seed),
        Err(e) => Err(e),
    }
}

/// A parsed line with its label and tag kept alongside the features.
#[derive(Debug, PartialEq, Eq)]
pub struct ParsedExample {
    pub label: Option<Vec<u8>>,
    pub tag: Option<Vec<u8>>,
    pub features: Features,
}

/// Parses one line, returning the label and tag together with the features.
///
/// The label and tag are exactly those [`parse_tree`] reads off the text
/// before the first `|`; the features are exactly [`parse_line`]'s.
pub fn parse_example(line: &str, hash_seed: u64) -> (r: Result<ParsedExample, ParseError>)
    ensures
        match r {
            Ok(ex) => ex.features.wf() && (parse_tree(line.spec_bytes()) matches Ok(t)
                && t.label == view_opt(ex.label) && t.tag == view_opt(ex.tag)
                && features_of_tree(t, hash_seed) == Ok::<FeaturesModel, ParseErrorModel>(
                ex.features@,
            )),
            Err(e) => parse_line_spec(line.spec_bytes(), hash_seed) == Err::<
                FeaturesModel,
                ParseErrorModel,
            >(e@),
        },
{
    match VWParser::parse(line) {
        Ok(tree) => {
            let ParseTree { label, tag, namespaces } = tree;
            let rebuilt = ParseTree { label, tag, namespaces };
            match process(&rebuilt, hash_seed) {
                Ok(features) => {
                    let ParseTree { label, tag, namespaces: _ } = rebuilt;
                    Ok(ParsedExample { label, tag, features })
                },
                Err(e) => Err(e),
            }
        },
        Err(e) => Err(e),
    }
}

} // verus!
