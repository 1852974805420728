//! The matcher: what each node of a syntax tree contributes to the matches of
//! a file, and how the matches of all files become a report.

use vstd::prelude::*;
use crate::matching::{
    first_match, keyword_hit, label_hits_of, lemma_labels_ignore_case,
    lemma_last_segment_ignores_case, lemma_match_ignores_case, push_keyword_match,
    push_label_matches, NAMESPACE_SEPARATOR,
};
use crate::report::{keyword_hits, label_hits, terms_of, AnalysisReport};
use crate::results::{KeywordHit, KeywordMatch, LabelHit, LabelMatch};
use crate::tally::{tallied_keywords, tallied_labels, with_terms};
use crate::text::{eq_ignore_ascii_case, last_segment, last_segment_of};
use crate::vendor::Vendor;

verus! {

/// What the matcher reads of one node of a syntax tree. Names are the bytes
/// of the source text; a resolved name is the fully qualified name that name
/// resolution gave the node.
#[derive(Debug, Clone, Copy)]
pub enum SyntaxNode<'a> {
    /// A call of a function that is named by an identifier.
    FunctionCall { resolved_name: &'a [u8] },
    /// A closure made from a function that is named by an identifier, by
    /// partial application or as a first-class callable.
    FunctionClosureCreation { resolved_name: &'a [u8] },
    /// A function declaration, with the name as declared.
    Function { name: &'a [u8], resolved_name: &'a [u8] },
    /// An identifier without a namespace.
    LocalIdentifier { value: &'a [u8] },
    /// An identifier with a relative namespace, with the resolved name if
    /// name resolution has one for the node.
    QualifiedIdentifier { resolution: Option<&'a [u8]> },
    /// An identifier with an absolute namespace.
    FullyQualifiedIdentifier { value: &'a [u8] },
    /// The label that a `goto` can jump to.
    Label { name: &'a [u8] },
    /// The name of a named argument.
    NamedArgument { name: &'a [u8] },
}

/// The last segment of a namespaced name.
pub open spec fn short_name(name: Seq<u8>) -> Seq<u8> {
    last_segment(name, NAMESPACE_SEPARATOR)
}

impl<'a> SyntaxNode<'a> {
    /// The keyword matches of a node. A call or a closure creation gives a
    /// soft match on the last segment of the resolved name. A declaration
    /// gives a soft match on the declared name and, in hard mode, a hard
    /// match on the last segment of the resolved name. In hard mode an
    /// identifier gives a hard match: a local one on its text, a qualified
    /// one on the last segment of its resolved name if it has one, a fully
    /// qualified one on its own last segment. Labels and argument names give
    /// no keyword match.
    pub open spec fn keyword_hits(
        self,
        hard: bool,
        keywords: Seq<Seq<char>>,
        vendor: Vendor,
    ) -> Seq<KeywordHit> {
        match self {
            SyntaxNode::FunctionCall { resolved_name } => keyword_hit(
                short_name(resolved_name@),
                keywords,
                vendor,
                false,
            ),
            SyntaxNode::FunctionClosureCreation { resolved_name } => keyword_hit(
                short_name(resolved_name@),
                keywords,
                vendor,
                false,
            ),
            SyntaxNode::Function { name, resolved_name } => keyword_hit(
                name@,
                keywords,
                vendor,
                false,
            ) + if hard {
                keyword_hit(short_name(resolved_name@), keywords, vendor, true)
            } else {
                Seq::empty()
            },
            SyntaxNode::LocalIdentifier { value } => if hard {
                keyword_hit(value@, keywords, vendor, true)
            } else {
                Seq::empty()
            },
            SyntaxNode::QualifiedIdentifier { resolution } => match resolution {
                Some(resolved) => if hard {
                    keyword_hit(short_name(resolved@), keywords, vendor, true)
                } else {
                    Seq::empty()
                },
                None => Seq::empty(),
            },
            SyntaxNode::FullyQualifiedIdentifier { value } => if hard {
                keyword_hit(short_name(value@), keywords, vendor, true)
            } else {
                Seq::empty()
            },
            SyntaxNode::Label { .. } => Seq::empty(),
            SyntaxNode::NamedArgument { .. } => Seq::empty(),
        }
    }

    /// The label matches of a node: a label or the name of a named argument
    /// gives one match for each requested label that it is; other nodes give
    /// none.
    pub open spec fn label_hits(self, labels: Seq<Seq<char>>, vendor: Vendor) -> Seq<LabelHit> {
        match self {
            SyntaxNode::Label { name } => label_hits_of(name@, labels, vendor),
            SyntaxNode::NamedArgument { name } => label_hits_of(name@, labels, vendor),
            _ => Seq::empty(),
        }
    }
}

/// Two nodes of the same kind whose names differ in the case of ASCII
/// letters only.
pub open spec fn differ_in_case_only(m: SyntaxNode, n: SyntaxNode) -> bool {
    match (m, n) {
        (
            SyntaxNode::FunctionCall { resolved_name: a },
            SyntaxNode::FunctionCall { resolved_name: b },
        ) => eq_ignore_ascii_case(a@, b@),
        (
            SyntaxNode::FunctionClosureCreation { resolved_name: a },
            SyntaxNode::FunctionClosureCreation { resolved_name: b },
        ) => eq_ignore_ascii_case(a@, b@),
        (
            SyntaxNode::Function { name: a, resolved_name: c },
            SyntaxNode::Function { name: b, resolved_name: d },
        ) => eq_ignore_ascii_case(a@, b@) && eq_ignore_ascii_case(c@, d@),
        (SyntaxNode::LocalIdentifier { value: a }, SyntaxNode::LocalIdentifier { value: b }) =>
            eq_ignore_ascii_case(a@, b@),
        (
            SyntaxNode::QualifiedIdentifier { resolution: Some(a) },
            SyntaxNode::QualifiedIdentifier { resolution: Some(b) },
        ) => eq_ignore_ascii_case(a@, b@),
        (
            SyntaxNode::QualifiedIdentifier { resolution: None },
            SyntaxNode::QualifiedIdentifier { resolution: None },
        ) => true,
        (
            SyntaxNode::FullyQualifiedIdentifier { value: a },
            SyntaxNode::FullyQualifiedIdentifier { value: b },
        ) => eq_ignore_ascii_case(a@, b@),
        (SyntaxNode::Label { name: a }, SyntaxNode::Label { name: b }) => eq_ignore_ascii_case(
            a@,
            b@,
        ),
        (SyntaxNode::NamedArgument { name: a }, SyntaxNode::NamedArgument { name: b }) =>
            eq_ignore_ascii_case(a@, b@),
        _ => false,
    }
}

/// Matching is blind to the case of ASCII letters: two nodes that differ in
/// it only give the same matches.
pub proof fn lemma_matching_ignores_case(
    m: SyntaxNode,
    n: SyntaxNode,
    hard: bool,
    keywords: Seq<Seq<char>>,
    labels: Seq<Seq<char>>,
    vendor: Vendor,
)
    requires
        differ_in_case_only(m, n),
    ensures
        m.keyword_hits(hard, keywords, vendor) == n.keyword_hits(hard, keywords, vendor),
        m.label_hits(labels, vendor) == n.label_hits(labels, vendor),
{
    match (m, n) {
        (
            SyntaxNode::FunctionCall { resolved_name: a },
            SyntaxNode::FunctionCall { resolved_name: b },
        ) => {
            lemma_last_segment_ignores_case(a@, b@);
            lemma_match_ignores_case(short_name(a@), short_name(b@), keywords);
        },
        (
            SyntaxNode::FunctionClosureCreation { resolved_name: a },
            SyntaxNode::FunctionClosureCreation { resolved_name: b },
        ) => {
            lemma_last_segment_ignores_case(a@, b@);
            lemma_match_ignores_case(short_name(a@), short_name(b@), keywords);
        },
        (
            SyntaxNode::Function { name: a, resolved_name: c },
            SyntaxNode::Function { name: b, resolved_name: d },
        ) => {
            lemma_match_ignores_case(a@, b@, keywords);
            lemma_last_segment_ignores_case(c@, d@);
            lemma_match_ignores_case(short_name(c@), short_name(d@), keywords);
        },
        (SyntaxNode::LocalIdentifier { value: a }, SyntaxNode::LocalIdentifier { value: b }) => {
            lemma_match_ignores_case(a@, b@, keywords);
        },
        (
            SyntaxNode::QualifiedIdentifier { resolution: Some(a) },
            SyntaxNode::QualifiedIdentifier { resolution: Some(b) },
        ) => {
            lemma_last_segment_ignores_case(a@, b@);
            lemma_match_ignores_case(short_name(a@), short_name(b@), keywords);
        },
        (
            SyntaxNode::FullyQualifiedIdentifier { value: a },
            SyntaxNode::FullyQualifiedIdentifier { value: b },
        ) => {
            lemma_last_segment_ignores_case(a@, b@);
            lemma_match_ignores_case(short_name(a@), short_name(b@), keywords);
        },
        (SyntaxNode::Label { name: a }, SyntaxNode::Label { name: b }) => {
            lemma_labels_ignore_case(a@, b@, labels, vendor);
        },
        (SyntaxNode::NamedArgument { name: a }, SyntaxNode::NamedArgument { name: b }) => {
            lemma_labels_ignore_case(a@, b@, labels, vendor);
        },
        _ => {},
    }
}

/// A declaration whose name is a requested keyword, in whatever case, and a
/// call whose resolved name ends in it, each give a soft match of that
/// keyword.
pub proof fn lemma_declaration_and_call_match(
    declared: SyntaxNode,
    called: SyntaxNode,
    keywords: Seq<Seq<char>>,
    at: int,
    vendor: Vendor,
)
    requires
        declared matches SyntaxNode::Function { name, .. } && first_match(name@, keywords) == Some(
            at,
        ),
        called matches SyntaxNode::FunctionCall { resolved_name } && first_match(
            short_name(resolved_name@),
            keywords,
        ) == Some(at),
    ensures
        declared.keyword_hits(false, keywords, vendor) == seq![
            KeywordHit { keyword: keywords[at], vendor, is_hard: false },
        ],
        called.keyword_hits(false, keywords, vendor) == seq![
            KeywordHit { keyword: keywords[at], vendor, is_hard: false },
        ],
        called.keyword_hits(true, keywords, vendor) == called.keyword_hits(
            false,
            keywords,
            vendor,
        ),
{
    let hit = seq![KeywordHit { keyword: keywords[at], vendor, is_hard: false }];
    assert(hit + Seq::<KeywordHit>::empty() =~= hit);
}

/// The keyword matches of the nodes of a file, in the order of the nodes.
pub open spec fn file_keyword_hits(
    nodes: Seq<SyntaxNode>,
    hard: bool,
    keywords: Seq<Seq<char>>,
    vendor: Vendor,
) -> Seq<KeywordHit>
    decreases nodes.len(),
{
    if nodes.len() == 0 {
        Seq::empty()
    } else {
        file_keyword_hits(nodes.drop_last(), hard, keywords, vendor) + nodes.last().keyword_hits(
            hard,
            keywords,
            vendor,
        )
    }
}

/// The label matches of the nodes of a file, in the order of the nodes.
pub open spec fn file_label_hits(
    nodes: Seq<SyntaxNode>,
    labels: Seq<Seq<char>>,
    vendor: Vendor,
) -> Seq<LabelHit>
    decreases nodes.len(),
{
    if nodes.len() == 0 {
        Seq::empty()
    } else {
        file_label_hits(nodes.drop_last(), labels, vendor) + nodes.last().label_hits(
            labels,
            vendor,
        )
    }
}

/// The matches of one file.
#[derive(Debug, Clone)]
pub struct FileMatches {
    pub keywords: Vec<KeywordMatch>,
    pub labels: Vec<LabelMatch>,
}

/// What is gathered while the nodes of one file are visited.
pub struct AnalysisContext {
    pub vendor: Vendor,
    pub keyword_matches: Vec<KeywordMatch>,
    pub label_matches: Vec<LabelMatch>,
}

impl AnalysisContext {
    /// What the keyword matches gathered so far say.
    pub open spec fn keyword_hits(&self) -> Seq<KeywordHit> {
        keyword_hits(self.keyword_matches@)
    }

    /// What the label matches gathered so far say.
    pub open spec fn label_hits(&self) -> Seq<LabelHit> {
        label_hits(self.label_matches@)
    }

    /// A context without matches for a file of a package of `vendor`.
    pub fn new(vendor: Vendor) -> (r: AnalysisContext)
        ensures
            r.vendor == vendor,
            r.keyword_matches@.len() == 0,
            r.label_matches@.len() == 0,
    {
        AnalysisContext { vendor, keyword_matches: Vec::new(), label_matches: Vec::new() }
    }
}

/// The matcher of one request: the keywords and labels that are looked for,
/// and whether hard matches are wanted.
#[derive(Debug, Clone)]
pub struct Analyzer<'ctx> {
    pub hard: bool,
    pub keywords: &'ctx [String],
    pub labels: &'ctx [String],
}

impl<'ctx> Analyzer<'ctx> {
    /// The requested keywords, each as a sequence of characters.
    pub open spec fn keyword_terms(&self) -> Seq<Seq<char>> {
        terms_of(self.keywords@)
    }

    /// The requested labels, each as a sequence of characters.
    pub open spec fn label_terms(&self) -> Seq<Seq<char>> {
        terms_of(self.labels@)
    }

    /// Visits a function call whose target is an identifier with the
    /// resolved name `resolved_name`.
    pub fn walk_in_function_call(&self, resolved_name: &[u8], context: &mut AnalysisContext)
        ensures
            final(context).keyword_hits() == old(context).keyword_hits() + (
            SyntaxNode::FunctionCall { resolved_name }).keyword_hits(
                self.hard,
                self.keyword_terms(),
                old(context).vendor,
            ),
            final(context).label_matches == old(context).label_matches,
            final(context).vendor == old(context).vendor,
    {
        let target = last_segment_of(resolved_name, NAMESPACE_SEPARATOR);
        push_keyword_match(
            &mut context.keyword_matches,
            target,
            self.keywords,
            context.vendor,
            false,
        );
    }

    /// Visits the creation of a closure from a function whose target is an
    /// identifier with the resolved name `resolved_name`.
    pub fn walk_in_function_closure_creation(
        &self,
        resolved_name: &[u8],
        context: &mut AnalysisContext,
    )
        ensures
            final(context).keyword_hits() == old(context).keyword_hits() + (
            SyntaxNode::FunctionClosureCreation { resolved_name }).keyword_hits(
                self.hard,
                self.keyword_terms(),
                old(context).vendor,
            ),
            final(context).label_matches == old(context).label_matches,
            final(context).vendor == old(context).vendor,
    {
        let target = last_segment_of(resolved_name, NAMESPACE_SEPARATOR);
        push_keyword_match(
            &mut context.keyword_matches,
            target,
            self.keywords,
            context.vendor,
            false,
        );
    }

    /// Visits the declaration of a function `name` whose fully qualified
    /// name is `resolved_name`.
    pub fn walk_in_function(
        &self,
        name: &[u8],
        resolved_name: &[u8],
        context: &mut AnalysisContext,
    )
        ensures
            final(context).keyword_hits() == old(context).keyword_hits() + (SyntaxNode::Function {
                name,
                resolved_name,
            }).keyword_hits(self.hard, self.keyword_terms(), old(context).vendor),
            final(context).label_matches == old(context).label_matches,
            final(context).vendor == old(context).vendor,
    {
        let ghost before = context.keyword_hits();
        let ghost soft = keyword_hit(name@, self.keyword_terms(), context.vendor, false);
        push_keyword_match(
            &mut context.keyword_matches,
            name,
            self.keywords,
            context.vendor,
            false,
        );
        if self.hard {
            let declared = last_segment_of(resolved_name, NAMESPACE_SEPARATOR);
            let ghost hard = keyword_hit(declared@, self.keyword_terms(), context.vendor, true);
            push_keyword_match(
                &mut context.keyword_matches,
                declared,
                self.keywords,
                context.vendor,
                true,
            );
        } else {
            assert(before + soft =~= before + (soft + Seq::<KeywordHit>::empty()));
        }
    }

    /// Visits an identifier without a namespace.
    pub fn walk_in_local_identifier(&self, value: &[u8], context: &mut AnalysisContext)
        ensures
            final(context).keyword_hits() == old(context).keyword_hits() + (
            SyntaxNode::LocalIdentifier { value }).keyword_hits(
                self.hard,
                self.keyword_terms(),
                old(context).vendor,
            ),
            final(context).label_matches == old(context).label_matches,
            final(context).vendor == old(context).vendor,
    {
        if !self.hard {
            return ;
        }
        push_keyword_match(
            &mut context.keyword_matches,
            value,
            self.keywords,
            context.vendor,
            true,
        );
    }

    /// Visits an identifier with a relative namespace; `resolved_name` is
    /// what name resolution has for it, if anything.
    pub fn walk_in_qualified_identifier(
        &self,
        resolved_name: Option<&[u8]>,
        context: &mut AnalysisContext,
    )
        ensures
            final(context).keyword_hits() == old(context).keyword_hits() + (
            SyntaxNode::QualifiedIdentifier { resolution: resolved_name }).keyword_hits(
                self.hard,
                self.keyword_terms(),
                old(context).vendor,
            ),
            final(context).label_matches == old(context).label_matches,
            final(context).vendor == old(context).vendor,
    {
        if !self.hard {
            return ;
        }
        match resolved_name {
            Some(resolved) => {
                let target = last_segment_of(resolved, NAMESPACE_SEPARATOR);
                push_keyword_match(
                    &mut context.keyword_matches,
                    target,
                    self.keywords,
                    context.vendor,
                    true,
                );
            },
            None => {
                assert(context.keyword_hits() + Seq::<KeywordHit>::empty()
                    =~= context.keyword_hits());
            },
        }
    }

    /// Visits an identifier with an absolute namespace.
    pub fn walk_in_fully_qualified_identifier(&self, value: &[u8], context: &mut AnalysisContext)
        ensures
            final(context).keyword_hits() == old(context).keyword_hits() + (
            SyntaxNode::FullyQualifiedIdentifier { value }).keyword_hits(
                self.hard,
                self.keyword_terms(),
                old(context).vendor,
            ),
            final(context).label_matches == old(context).label_matches,
            final(context).vendor == old(context).vendor,
    {
        if !self.hard {
            return ;
        }
        let target = last_segment_of(value, NAMESPACE_SEPARATOR);
        push_keyword_match(
            &mut context.keyword_matches,
            target,
            self.keywords,
            context.vendor,
            true,
        );
    }

    /// Visits a label that a `goto` can jump to.
    pub fn walk_in_label(&self, name: &[u8], context: &mut AnalysisContext)
        ensures
            final(context).label_hits() == old(context).label_hits() + label_hits_of(
                name@,
                self.label_terms(),
                old(context).vendor,
            ),
            final(context).keyword_matches == old(context).keyword_matches,
            final(context).vendor == old(context).vendor,
    {
        push_label_matches(&mut context.label_matches, name, self.labels, context.vendor);
    }

    /// Visits the name of a named argument.
    pub fn walk_in_named_argument(&self, name: &[u8], context: &mut AnalysisContext)
        ensures
            final(context).label_hits() == old(context).label_hits() + label_hits_of(
                name@,
                self.label_terms(),
                old(context).vendor,
            ),
            final(context).keyword_matches == old(context).keyword_matches,
            final(context).vendor == old(context).vendor,
    {
        push_label_matches(&mut context.label_matches, name, self.labels, context.vendor);
    }

    /// Visits one node: adds its keyword matches and its label matches to
    /// what the context holds.
    pub fn visit(&self, node: &SyntaxNode, context: &mut AnalysisContext)
        ensures
            final(context).keyword_hits() == old(context).keyword_hits() + node.keyword_hits(
                self.hard,
                self.keyword_terms(),
                old(context).vendor,
            ),
            final(context).label_hits() == old(context).label_hits() + node.label_hits(
                self.label_terms(),
                old(context).vendor,
            ),
            final(context).vendor == old(context).vendor,
    {
        proof {
            assert(context.keyword_hits() + Seq::<KeywordHit>::empty() =~= context.keyword_hits());
        }
        match node {
            SyntaxNode::FunctionCall { resolved_name } => self.walk_in_function_call(
                resolved_name,
                context,
            ),
            SyntaxNode::FunctionClosureCreation {
                resolved_name,
            } => self.walk_in_function_closure_creation(resolved_name, context),
            SyntaxNode::Function { name, resolved_name } => self.walk_in_function(
                name,
                resolved_name,
                context,
            ),
            SyntaxNode::LocalIdentifier { value } => self.walk_in_local_identifier(value, context),
            SyntaxNode::QualifiedIdentifier { resolution } => self.walk_in_qualified_identifier(
                *resolution,
                context,
            ),
            SyntaxNode::FullyQualifiedIdentifier {
                value,
            } => self.walk_in_fully_qualified_identifier(value, context),
            SyntaxNode::Label { name } => self.walk_in_label(name, context),
            SyntaxNode::NamedArgument { name } => self.walk_in_named_argument(name, context),
        }
    }

    /// The matches of one file of a package of `vendor`, from the nodes of
    /// its syntax tree in the order of the walk. Hard matches are wanted.
    pub fn run(
        nodes: &[SyntaxNode],
        vendor: Vendor,
        keywords: &'ctx [String],
        labels: &'ctx [String],
    ) -> (found: FileMatches)
        ensures
            keyword_hits(found.keywords@) == file_keyword_hits(
                nodes@,
                true,
                terms_of(keywords@),
                vendor,
            ),
            label_hits(found.labels@) == file_label_hits(nodes@, terms_of(labels@), vendor),
    {
        let analyzer = Analyzer { hard: true, keywords, labels };
        let mut context = AnalysisContext::new(vendor);
        let mut i: usize = 0;
        proof {
            assert(nodes@.take(0) =~= Seq::<SyntaxNode>::empty());
        }
        while i < nodes.len()
            invariant
                i <= nodes.len(),
                analyzer.hard,
                analyzer.keywords == keywords,
                analyzer.labels == labels,
                context.vendor == vendor,
                context.keyword_hits() == file_keyword_hits(
                    nodes@.take(i as int),
                    true,
                    terms_of(keywords@),
                    vendor,
                ),
                context.label_hits() == file_label_hits(
                    nodes@.take(i as int),
                    terms_of(labels@),
                    vendor,
                ),
            decreases nodes.len() - i,
        {
            proof {
                assert(nodes@.take(i + 1).drop_last() =~= nodes@.take(i as int));
            }
            analyzer.visit(&nodes[i], &mut context);
            i += 1;
        }
        proof {
            assert(nodes@.take(nodes@.len() as int) =~= nodes@);
        }
        FileMatches { keywords: context.keyword_matches, labels: context.label_matches }
    }
}

/// The keyword matches of all files, in the order of the files.
pub open spec fn all_keyword_hits(files: Seq<FileMatches>) -> Seq<KeywordHit>
    decreases files.len(),
{
    if files.len() == 0 {
        Seq::empty()
    } else {
        all_keyword_hits(files.drop_last()) + keyword_hits(files.last().keywords@)
    }
}

/// The label matches of all files, in the order of the files.
pub open spec fn all_label_hits(files: Seq<FileMatches>) -> Seq<LabelHit>
    decreases files.len(),
{
    if files.len() == 0 {
        Seq::empty()
    } else {
        all_label_hits(files.drop_last()) + label_hits(files.last().labels@)
    }
}

/// The report of a run: the matches of all files folded into one record per
/// term, a record for every requested keyword whether it was found or not,
/// and the number of files.
pub fn analyze_directory(files: Vec<FileMatches>, keywords: &[String]) -> (report: AnalysisReport)
    ensures
        report.keywords() == with_terms(
            tallied_keywords(Map::empty(), all_keyword_hits(files@)),
            terms_of(keywords@),
        ),
        report.labels() == tallied_labels(Map::empty(), all_label_hits(files@)),
        report.total_files == files@.len(),
        report.keyword_room(0),
        report.label_room(0),
{
    let total = files.len();
    let ghost given = files@;
    let mut files = files;
    let mut keyword_matches: Vec<KeywordMatch> = Vec::new();
    let mut label_matches: Vec<LabelMatch> = Vec::new();
    let mut i: usize = 0;
    proof {
        assert(given.take(0) =~= Seq::<FileMatches>::empty());
    }
    while i < total
        invariant
            i <= total,
            total == given.len(),
            files@.len() == total,
            forall|j: int| i <= j < total ==> files@[j] == given[j],
            keyword_hits(keyword_matches@) == all_keyword_hits(given.take(i as int)),
            label_hits(label_matches@) == all_label_hits(given.take(i as int)),
        decreases total - i,
    {
        let ghost held_keywords = keyword_matches@;
        let ghost held_labels = label_matches@;
        keyword_matches.append(&mut files[i].keywords);
        label_matches.append(&mut files[i].labels);
        proof {
            assert(given.take(i + 1).drop_last() =~= given.take(i as int));
            assert(keyword_hits(keyword_matches@) =~= keyword_hits(held_keywords) + keyword_hits(
                given[i as int].keywords@,
            ));
            assert(label_hits(label_matches@) =~= label_hits(held_labels) + label_hits(
                given[i as int].labels@,
            ));
        }
        i += 1;
    }
    proof {
        assert(given.take(total as int) =~= given);
    }
    let mut report = AnalysisReport::new(total);
    report.add_keyword_matches(keyword_matches);
    report.add_label_matches(label_matches);
    report.ensure_all_keywords(keywords);
    report
}

} // verus!
