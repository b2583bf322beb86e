//! Descriptor loading and flattening.
//!
//! A flow is written against node descriptors reached through URIs; a
//! composite operator's descriptor is itself a sub-graph.  Flattening
//! resolves every node to a plain source, sink or operator: it overwrites
//! identifiers with their place in the graph, merges configurations outer to
//! inner, inlines composites by prefixing inner identifiers with the
//! composite's own, and refuses a descriptor that includes itself, directly
//! or through other composites.
//!
//! The registry holds, per URI, what its descriptor text parses as.  Reading
//! and parsing the text is the caller's business; every decision taken on
//! the parse outcomes is made here.

use vstd::prelude::*;
use crate::config::{merge_overwrite, opt_config_map, opt_config_wf, Configuration};
use crate::errors::{ErrorKind, ZFError};
use crate::kvmap::{lemma_map_of_dom_card, StrMap};
use crate::model::{
    dup_opt_config, opt_str_view, CompositeOperatorDescriptor, LinkDescriptor, NodeDescriptor,
    NodeId, OperatorDescriptor, PortDescriptor, SinkDescriptor, SourceDescriptor,
};
use crate::strutil::{concat3, spec_has_prefix};
use crate::uri::{parse_uri, NodeKind, URIStruct};

verus! {

/// What the text behind one URI parses as.  The same text may parse both as
/// a simple operator and as a composite; the simple reading wins.  When a
/// reading failed, the parser's diagnostic is kept beside it, so a
/// descriptor that parses neither way can report both.
pub struct ParsedDescriptor {
    pub simple: Option<OperatorDescriptor>,
    pub composite: Option<CompositeOperatorDescriptor>,
    pub source: Option<SourceDescriptor>,
    pub sink: Option<SinkDescriptor>,
    pub simple_diagnostic: Option<String>,
    pub composite_diagnostic: Option<String>,
}

/// A composite is well-formed when its configurations are, its children's
/// identifiers are pairwise distinct and none of them contains the `/` the
/// flattener uses as its path separator.
pub open spec fn composite_wf(c: CompositeOperatorDescriptor) -> bool {
    &&& opt_config_wf(c.configuration)
    &&& forall|i: int| 0 <= i < c.operators@.len() ==> (#[trigger] c.operators@[i]).wf()
    &&& forall|i: int| 0 <= i < c.operators@.len()
        ==> !(#[trigger] c.operators@[i]).id@.contains('/')
    &&& forall|i: int, j: int| 0 <= i < j < c.operators@.len()
        ==> c.operators@[i].id@ != c.operators@[j].id@
}

pub open spec fn parsed_wf(p: ParsedDescriptor) -> bool {
    &&& (p.simple matches Some(op) ==> op.wf())
    &&& (p.composite matches Some(c) ==> composite_wf(c))
    &&& (p.source matches Some(s) ==> s.wf())
    &&& (p.sink matches Some(s) ==> s.wf())
}

/// Whether `s` contains the path separator.
pub fn contains_slash(s: &String) -> (r: bool)
    ensures
        r == s@.contains('/'),
{
    let n = s.as_str().unicode_len();
    for i in 0..n
        invariant
            n == s@.len(),
            forall|j: int| 0 <= j < i ==> s@[j] != '/',
    {
        if s.as_str().get_char(i) == '/' {
            return true;
        }
    }
    proof {
        assert(!s@.contains('/')) by {
            if s@.contains('/') {
                let j = choose|j: int| 0 <= j < s@.len() && s@[j] == '/';
            }
        }
    }
    false
}

fn check_opt_config(c: &Option<Configuration>) -> (r: bool)
    ensures
        r == opt_config_wf(*c),
{
    match c {
        Some(cc) => cc.map.check_keys_unique(),
        None => true,
    }
}

fn check_composite_wf(c: &CompositeOperatorDescriptor) -> (r: bool)
    ensures
        r == composite_wf(*c),
{
    if !check_opt_config(&c.configuration) {
        return false;
    }
    let n = c.operators.len();
    for i in 0..n
        invariant
            n == c.operators@.len(),
            opt_config_wf(c.configuration),
            forall|j: int| 0 <= j < i ==> (#[trigger] c.operators@[j]).wf(),
            forall|j: int| 0 <= j < i ==> !(#[trigger] c.operators@[j]).id@.contains('/'),
            forall|a: int, b: int| 0 <= a < b < c.operators@.len() && a < i
                ==> c.operators@[a].id@ != c.operators@[b].id@,
    {
        if !check_opt_config(&c.operators[i].configuration) {
            return false;
        }
        if contains_slash(&c.operators[i].id) {
            return false;
        }
        for j in (i + 1)..n
            invariant
                n == c.operators@.len(),
                i < n,
                forall|a: int, b: int| 0 <= a < b < c.operators@.len() && a < i
                    ==> c.operators@[a].id@ != c.operators@[b].id@,
                forall|b: int| i < b < j ==> c.operators@[i as int].id@
                    != c.operators@[b].id@,
        {
            if c.operators[i].id.eq(&c.operators[j].id) {
                return false;
            }
        }
    }
    true
}

fn check_parsed_wf(p: &ParsedDescriptor) -> (r: bool)
    ensures
        r == parsed_wf(*p),
{
    let simple_ok = match &p.simple {
        Some(op) => check_opt_config(&op.configuration),
        None => true,
    };
    let composite_ok = match &p.composite {
        Some(c) => check_composite_wf(c),
        None => true,
    };
    let source_ok = match &p.source {
        Some(s) => check_opt_config(&s.configuration),
        None => true,
    };
    let sink_ok = match &p.sink {
        Some(s) => check_opt_config(&s.configuration),
        None => true,
    };
    simple_ok && composite_ok && source_ok && sink_ok
}

/// The parse outcomes of every descriptor the flattener may reach, keyed by
/// the URI its `NodeDescriptor` names.
pub struct DescriptorRegistry {
    pub map: StrMap<ParsedDescriptor>,
}

impl DescriptorRegistry {
    pub open spec fn wf(self) -> bool {
        &&& self.map.wf()
        &&& forall|k: Seq<char>| #[trigger] self.map.as_map().dom().contains(k)
            ==> parsed_wf(self.map.as_map()[k])
    }

    pub open spec fn as_map(self) -> Map<Seq<char>, ParsedDescriptor> {
        self.map.as_map()
    }

    pub fn new() -> (r: DescriptorRegistry)
        ensures
            r.wf(),
            r.as_map() == Map::<Seq<char>, ParsedDescriptor>::empty(),
    {
        DescriptorRegistry { map: StrMap::new() }
    }

    /// Registers what the descriptor text behind `uri` parses as, after
    /// validating it; an ill-formed outcome is refused as a parsing error.
    pub fn add(&mut self, uri: String, parsed: ParsedDescriptor) -> (r: Result<(), ZFError>)
        requires
            old(self).wf(),
        ensures
            final(self).wf(),
            r is Ok <==> parsed_wf(parsed),
            r is Ok ==> final(self).as_map() == old(self).as_map().insert(uri@, parsed),
            r matches Err(e) ==> final(self).as_map() == old(self).as_map() && e.kind
                == ErrorKind::ParsingError,
    {
        if !check_parsed_wf(&parsed) {
            return Err(ZFError::new(
                ErrorKind::ParsingError,
                String::from_str("ill-formed descriptor"),
            ));
        }
        self.map.insert(uri, parsed);
        Ok(())
    }
}

/// Well-formedness of the ancestor stack: pairwise distinct URIs, each of
/// them known to the registry.
pub open spec fn ancestors_wf(reg: DescriptorRegistry, anc: Seq<String>) -> bool {
    &&& forall|i: int, j: int| 0 <= i < j < anc.len() ==> anc[i]@ != anc[j]@
    &&& forall|i: int| 0 <= i < anc.len() ==> reg.as_map().dom().contains(
        (#[trigger] anc[i])@,
    )
}

/// A well-formed ancestor stack never outgrows the registry.
pub proof fn lemma_ancestors_bound(reg: DescriptorRegistry, anc: Seq<String>)
    requires
        ancestors_wf(reg, anc),
    ensures
        anc.len() <= reg.map.entries@.len(),
{
    lemma_map_of_dom_card(reg.map.entries@);
    lemma_distinct_in_dom(anc, reg.as_map().dom());
}

proof fn lemma_distinct_in_dom(anc: Seq<String>, dom: Set<Seq<char>>)
    requires
        dom.finite(),
        forall|i: int, j: int| 0 <= i < j < anc.len() ==> anc[i]@ != anc[j]@,
        forall|i: int| 0 <= i < anc.len() ==> dom.contains((#[trigger] anc[i])@),
    ensures
        anc.len() <= dom.len(),
    decreases anc.len(),
{
    if anc.len() > 0 {
        let rest = anc.drop_last();
        let d2 = dom.remove(anc.last()@);
        assert forall|i: int| 0 <= i < rest.len() implies d2.contains((#[trigger] rest[i])@) by {
            assert(anc[i]@ != anc.last()@);
            assert(dom.contains(anc[i]@));
        }
        lemma_distinct_in_dom(rest, d2);
    }
}

/// The character separating path components of flattened identifiers.
pub open spec fn sep() -> Seq<char> {
    seq!['/']
}

/// The identifier a child named `c` receives below the flattened path `id`.
pub open spec fn child_path(id: Seq<char>, c: Seq<char>) -> Seq<char> {
    id + sep() + c
}

/// Whether `s` lies strictly below `parent` in the path hierarchy.
pub open spec fn strictly_under(parent: Seq<char>, s: Seq<char>) -> bool {
    &&& s.len() > parent.len()
    &&& s.subrange(0, parent.len() as int) == parent
    &&& s[parent.len() as int] == '/'
}

/// Whether `s` is `parent` itself or lies strictly below it.
pub open spec fn under(parent: Seq<char>, s: Seq<char>) -> bool {
    s == parent || strictly_under(parent, s)
}

/// A path under `q` agrees with `q` on its first characters and either ends
/// with `q` or continues with a separator.
proof fn lemma_under_chars(q: Seq<char>, x: Seq<char>)
    requires
        under(q, x),
    ensures
        x.len() >= q.len(),
        forall|i: int| 0 <= i < q.len() ==> x[i] == q[i],
        x.len() == q.len() || x[q.len() as int] == '/',
{
    if x == q {
    } else {
        assert forall|i: int| 0 <= i < q.len() implies x[i] == q[i] by {
            assert(x.subrange(0, q.len() as int)[i] == x[i]);
        }
    }
}

/// Anything under a child's path lies strictly under the parent's.
proof fn lemma_under_child(p: Seq<char>, c: Seq<char>, x: Seq<char>)
    requires
        under(child_path(p, c), x),
    ensures
        strictly_under(p, x),
{
    let q = child_path(p, c);
    lemma_under_chars(q, x);
    assert(q.len() == p.len() + 1 + c.len());
    assert forall|i: int| 0 <= i < p.len() implies q[i] == p[i] by {}
    assert(q[p.len() as int] == '/');
    assert(x.subrange(0, p.len() as int) =~= p);
}

/// Paths under the paths of two distinct, separator-free children never
/// meet.
proof fn lemma_children_disjoint(p: Seq<char>, c1: Seq<char>, c2: Seq<char>, x: Seq<char>, y: Seq<
    char,
>)
    requires
        c1 != c2,
        !c1.contains('/'),
        !c2.contains('/'),
        under(child_path(p, c1), x),
        under(child_path(p, c2), y),
    ensures
        x != y,
{
    if x == y {
        let q1 = child_path(p, c1);
        let q2 = child_path(p, c2);
        lemma_under_chars(q1, x);
        lemma_under_chars(q2, x);
        assert(q1.len() == p.len() + 1 + c1.len());
        assert(q2.len() == p.len() + 1 + c2.len());
        assert forall|k: int| 0 <= k < c1.len() implies q1[p.len() + 1 + k] == c1[k] by {}
        assert forall|k: int| 0 <= k < c2.len() implies q2[p.len() + 1 + k] == c2[k] by {}
        if c1.len() == c2.len() {
            assert forall|k: int| 0 <= k < c1.len() implies c1[k] == c2[k] by {
                assert(x[p.len() + 1 + k] == q1[p.len() + 1 + k]);
                assert(x[p.len() + 1 + k] == q2[p.len() + 1 + k]);
            }
            assert(c1 =~= c2);
        } else if c1.len() < c2.len() {
            let t = q1.len() as int;
            assert(t < q2.len() <= x.len());
            assert(x[t] == '/');
            assert(x[t] == q2[t]);
            assert(q2[t] == c2[t - p.len() - 1]);
            assert(c2.contains('/'));
        } else {
            let t = q2.len() as int;
            assert(t < q1.len() <= x.len());
            assert(x[t] == '/');
            assert(x[t] == q1[t]);
            assert(q1[t] == c1[t - p.len() - 1]);
            assert(c1.contains('/'));
        }
    }
}

/// The first position of `uri` on the ancestor stack, if it is there.
fn find_ancestor(ancestors: &Vec<String>, uri: &String) -> (r: Option<usize>)
    ensures
        r matches Some(i) ==> i < ancestors@.len() && ancestors@[i as int]@ == uri@
            && forall|j: int| 0 <= j < i ==> ancestors@[j]@ != uri@,
        r is None ==> forall|j: int| 0 <= j < ancestors@.len() ==> ancestors@[j]@ != uri@,
{
    let n = ancestors.len();
    for i in 0..n
        invariant
            n == ancestors@.len(),
            forall|j: int| 0 <= j < i ==> ancestors@[j]@ != uri@,
    {
        if ancestors[i].eq(uri) {
            return Some(i);
        }
    }
    None
}

/// The ancestor URIs from the repeated one on, joined for display.
pub open spec fn joined_uris(s: Seq<String>) -> Seq<char>
    decreases s.len(),
{
    if s.len() == 0 {
        Seq::empty()
    } else if s.len() == 1 {
        s[0]@
    } else {
        joined_uris(s.drop_last()) + ", "@ + s.last()@
    }
}

/// The message a cycle is reported with: the URI that would be included
/// again, and the ancestor chain from its first occurrence on.
pub open spec fn cycle_message(uri: Seq<char>, suffix: Seq<String>) -> Seq<char> {
    "Possible recursion detected, < "@ + uri + " > would be included again after: ["@
        + joined_uris(suffix) + "]"@
}

/// Renders the cycle error message for `uri` found at `ix` on the stack.
fn render_cycle_message(ancestors: &Vec<String>, ix: usize, uri: &String) -> (r: String)
    requires
        ix < ancestors@.len(),
    ensures
        r@ == cycle_message(uri@, ancestors@.subrange(ix as int, ancestors@.len() as int)),
{
    let n = ancestors.len();
    let mut msg = String::from_str("Possible recursion detected, < ");
    msg.append(uri.as_str());
    msg.append(" > would be included again after: [");
    let ghost suffix = ancestors@.subrange(ix as int, ancestors@.len() as int);
    let ghost head = msg@;
    for j in ix..n
        invariant
            n == ancestors@.len(),
            ix < n,
            suffix == ancestors@.subrange(ix as int, ancestors@.len() as int),
            msg@ == head + joined_uris(suffix.take(j - ix)),
    {
        proof {
            let t = j - ix;
            assert(suffix.take(t + 1).drop_last() =~= suffix.take(t as int));
            assert(suffix.take(t + 1).last() == suffix[t as int]);
            assert(suffix[t as int] == ancestors@[j as int]);
            if t == 0 {
                assert(joined_uris(suffix.take(0)) == Seq::<char>::empty());
                assert(head + joined_uris(suffix.take(0)) =~= head);
            }
        }
        if j > ix {
            msg.append(", ");
        }
        msg.append(ancestors[j].as_str());
        proof {
            let t = j - ix;
            if t == 0 {
                assert(joined_uris(suffix.take(1)) == suffix[0]@);
            }
        }
    }
    proof {
        assert(suffix.take(n - ix) =~= suffix);
    }
    msg.append("]");
    msg
}

/// Appends a composite's inner links to the flow's links, both endpoints
/// moved below the composite's flattened path `base`.
fn prefix_inner_links(links: &mut Vec<LinkDescriptor>, base: &String, inner: &Vec<
    LinkDescriptor,
>)
    ensures
        final(links)@.len() == old(links)@.len() + inner@.len(),
        forall|j: int| 0 <= j < old(links)@.len() ==> final(links)@[j] == old(links)@[j],
        forall|k: int| 0 <= k < inner@.len() ==> (#[trigger] final(links)@[old(
            links,
        )@.len() + k]).dv() == (
            child_path(base@, inner@[k].from.node@),
            inner@[k].from.output@,
            child_path(base@, inner@[k].to.node@),
            inner@[k].to.input@,
        ),
{
    let n = inner.len();
    for k in 0..n
        invariant
            n == inner@.len(),
            links@.len() == old(links)@.len() + k,
            forall|j: int| 0 <= j < old(links)@.len() ==> links@[j] == old(links)@[j],
            forall|t: int| 0 <= t < k ==> (#[trigger] links@[old(links)@.len() + t]).dv() == (
                child_path(base@, inner@[t].from.node@),
                inner@[t].from.output@,
                child_path(base@, inner@[t].to.node@),
                inner@[t].to.input@,
            ),
    {
        proof {
            reveal_strlit("/");
            assert("/"@ =~= sep());
        }
        let from_node = concat3(base.as_str(), "/", inner[k].from.node.as_str());
        let to_node = concat3(base.as_str(), "/", inner[k].to.node.as_str());
        links.push(
            LinkDescriptor {
                from: crate::model::LinkFrom {
                    node: from_node,
                    output: inner[k].from.output.clone(),
                },
                to: crate::model::LinkTo { node: to_node, input: inner[k].to.input.clone() },
            },
        );
    }
}

/// The exposed input of a composite named `port`, if it declares one, by its
/// index.
fn find_composite_input(inputs: &Vec<crate::model::CompositeInput>, port: &String) -> (r:
    Option<usize>)
    ensures
        r matches Some(i) ==> i < inputs@.len() && inputs@[i as int].id@ == port@,
        r is None ==> forall|i: int| 0 <= i < inputs@.len() ==> inputs@[i].id@ != port@,
{
    let n = inputs.len();
    for i in 0..n
        invariant
            n == inputs@.len(),
            forall|j: int| 0 <= j < i ==> inputs@[j].id@ != port@,
    {
        if inputs[i].id.eq(port) {
            return Some(i);
        }
    }
    None
}

/// The exposed output of a composite named `port`, if it declares one, by
/// its index.
fn find_composite_output(outputs: &Vec<crate::model::CompositeOutput>, port: &String) -> (r:
    Option<usize>)
    ensures
        r matches Some(i) ==> i < outputs@.len() && outputs@[i as int].id@ == port@,
        r is None ==> forall|i: int| 0 <= i < outputs@.len() ==> outputs@[i].id@ != port@,
{
    let n = outputs.len();
    for i in 0..n
        invariant
            n == outputs@.len(),
            forall|j: int| 0 <= j < i ==> outputs@[j].id@ != port@,
    {
        if outputs[i].id.eq(port) {
            return Some(i);
        }
    }
    None
}

/// How one link of the enclosing flow reads after the composite flattened
/// under `cid` is inlined: an endpoint naming one of its exposed ports is
/// replaced by the inner node and port that exposed port stands for, the
/// node moved below `cid`; any other endpoint stays.
pub open spec fn link_rerouted(
    o: LinkDescriptor,
    f: LinkDescriptor,
    cid: Seq<char>,
    inputs: Seq<crate::model::CompositeInput>,
    outputs: Seq<crate::model::CompositeOutput>,
) -> bool {
    &&& (o.to.node@ != cid ==> f.to.node@ == o.to.node@ && f.to.input@ == o.to.input@)
    &&& (o.to.node@ == cid ==> exists|m: int|
        0 <= m < inputs.len() && (#[trigger] inputs[m]).id@ == o.to.input@ && f.to.node@
            == child_path(cid, inputs[m].node@) && f.to.input@ == inputs[m].input@)
    &&& (o.from.node@ != cid ==> f.from.node@ == o.from.node@ && f.from.output@
        == o.from.output@)
    &&& (o.from.node@ == cid ==> exists|m: int|
        0 <= m < outputs.len() && (#[trigger] outputs[m]).id@ == o.from.output@ && f.from.node@
            == child_path(cid, outputs[m].node@) && f.from.output@ == outputs[m].output@)
}

/// The endpoints of a composite's inner link, both moved below the
/// composite's flattened path `base`.
pub open spec fn prefixed_link_dv(base: Seq<char>, l: LinkDescriptor) -> (
    Seq<char>,
    Seq<char>,
    Seq<char>,
    Seq<char>,
) {
    (child_path(base, l.from.node@), l.from.output@, child_path(base, l.to.node@), l.to.input@)
}

/// Reroutes the links that end or start at the composite flattened under
/// `cid`: an endpoint naming one of its exposed ports is replaced by the
/// inner node and port that exposed port stands for, the node moved below
/// `cid`.  A link that names a port the composite does not expose is a
/// structural error.
fn patch_external_links(
    links: &mut Vec<LinkDescriptor>,
    cid: &String,
    inputs: &Vec<crate::model::CompositeInput>,
    outputs: &Vec<crate::model::CompositeOutput>,
) -> (r: Result<(), ZFError>)
    ensures
        (forall|j: int| 0 <= j < old(links)@.len() ==> (#[trigger] old(links)@[j]).to.node@
            != cid@ && old(links)@[j].from.node@ != cid@) ==> r is Ok,
        r is Ok ==> {
            &&& final(links)@.len() == old(links)@.len()
            &&& forall|j: int| 0 <= j < old(links)@.len() ==> link_rerouted(
                #[trigger] old(links)@[j],
                final(links)@[j],
                cid@,
                inputs@,
                outputs@,
            )
        },
        r matches Err(e) ==> e.kind == ErrorKind::PortNotFound,
{
    let n = links.len();
    for j in 0..n
        invariant
            n == links@.len(),
            links@.len() == old(links)@.len(),
            forall|t: int| j <= t < n ==> links@[t] == old(links)@[t],
            forall|t: int| 0 <= t < j ==> link_rerouted(
                #[trigger] old(links)@[t],
                links@[t],
                cid@,
                inputs@,
                outputs@,
            ),
    {
        proof {
            reveal_strlit("/");
            assert("/"@ =~= sep());
        }
        if links[j].to.node.eq(cid) {
            match find_composite_input(inputs, &links[j].to.input) {
                Some(m) => {
                    let node = concat3(cid.as_str(), "/", inputs[m].node.as_str());
                    let input = inputs[m].input.clone();
                    links[j].to = crate::model::LinkTo { node, input };
                },
                None => {
                    return Err(ZFError::new(
                        ErrorKind::PortNotFound,
                        String::from_str("a link ends at a port the composite does not expose"),
                    ));
                },
            }
        }
        if links[j].from.node.eq(cid) {
            match find_composite_output(outputs, &links[j].from.output) {
                Some(m) => {
                    let node = concat3(cid.as_str(), "/", outputs[m].node.as_str());
                    let output = outputs[m].output.clone();
                    links[j].from = crate::model::LinkFrom { node, output };
                },
                None => {
                    return Err(ZFError::new(
                        ErrorKind::PortNotFound,
                        String::from_str("a link starts at a port the composite does not expose"),
                    ));
                },
            }
        }
    }
    Ok(())
}

impl NodeDescriptor {
    /// Resolves this node as a source: by the registry's parse outcome for a
    /// `file://` URI, or synthesized for `builtin://zenoh/source`.  The
    /// caller-supplied identifier wins and the outer configuration is merged
    /// under the descriptor's own.
    pub fn load_source(
        self,
        registry: &DescriptorRegistry,
        global_configuration: Option<Configuration>,
    ) -> (r: Result<SourceDescriptor, ZFError>)
        requires
            registry.wf(),
            opt_config_wf(global_configuration),
            self.wf(),
        ensures
            crate::strutil::spec_has_prefix(self.descriptor@, "file://"@) ==> {
                let dom_has = registry.as_map().dom().contains(self.descriptor@);
                &&& !dom_has ==> (r matches Err(e) && e.kind == ErrorKind::IOError)
                &&& dom_has ==> match registry.as_map()[self.descriptor@].source {
                    Some(src) => r matches Ok(d) && d.id@ == self.id@ && src.same_shape(d)
                        && opt_config_map(d.configuration) == opt_config_map(
                        global_configuration,
                    ).union_prefer_right(opt_config_map(src.configuration)) && d.wf(),
                    None => r matches Err(e) && e.kind == ErrorKind::ParsingError,
                }
            },
            !crate::strutil::spec_has_prefix(self.descriptor@, "file://"@) ==> (
            if self.descriptor@ == "builtin://zenoh/source"@ {
                match self.configuration {
                    Some(c) => r matches Ok(d) && d.id@ == self.id@ && d.period is None
                        && d.output.dv() == ("Data"@, "_any_"@) && opt_str_view(d.uri) == Some(
                        "builtin://zenoh/source"@,
                    ) && opt_config_map(d.configuration) == opt_config_map(
                        global_configuration,
                    ).union_prefer_right(c.as_map()) && d.wf(),
                    None => r matches Err(e) && e.kind == ErrorKind::MissingConfiguration,
                }
            } else if self.descriptor@ == "builtin://zenoh/sink"@ {
                match self.configuration {
                    Some(c) => r matches Err(e) && e.kind == ErrorKind::ParsingError,
                    None => r matches Err(e) && e.kind == ErrorKind::MissingConfiguration,
                }
            } else if self.descriptor@ == "builtin://zenoh/operator"@ {
                r matches Err(e) && e.kind == ErrorKind::Unimplemented
            } else {
                r matches Err(e) && e.kind == ErrorKind::ParsingError
            }),
    {
        proof {
            reveal_strlit("file://");
            reveal_strlit("builtin://zenoh/source");
            reveal_strlit("builtin://zenoh/sink");
            reveal_strlit("builtin://zenoh/operator");
            reveal_strlit("Data");
            reveal_strlit("_any_");
            assert("builtin://zenoh/source"@.subrange(0, 7)[0] == 'b');
            assert("builtin://zenoh/sink"@.subrange(0, 7)[0] == 'b');
            assert("builtin://zenoh/operator"@.subrange(0, 7)[0] == 'b');
            assert(!spec_has_prefix("builtin://zenoh/source"@, "file://"@));
            assert(!spec_has_prefix("builtin://zenoh/sink"@, "file://"@));
            assert(!spec_has_prefix("builtin://zenoh/operator"@, "file://"@));
        }
        let parsed_uri = match parse_uri(self.descriptor.as_str()) {
            Ok(u) => u,
            Err(e) => {
                return Err(e);
            },
        };
        match parsed_uri {
            URIStruct::File(_path) => match registry.map.get(&self.descriptor) {
                Some(parsed) => match &parsed.source {
                    Some(src) => {
                        let mut d = src.duplicate();
                        d.id = self.id;
                        d.configuration = merge_overwrite(
                            &global_configuration,
                            &d.configuration,
                        );
                        Ok(d)
                    },
                    None => Err(ZFError::new(
                        ErrorKind::ParsingError,
                        String::from_str("the descriptor does not describe a source"),
                    )),
                },
                None => Err(ZFError::new(
                    ErrorKind::IOError,
                    String::from_str("no descriptor was loaded for the URI"),
                )),
            },
            URIStruct::Builtin(mw, kind) => {
                match crate::uri::make_builtin_descriptor(mw, kind, &self.configuration) {
                    Ok(_) => (),
                    Err(e) => {
                        return Err(e);
                    },
                }
                match kind {
                    NodeKind::Source => {
                        let d = SourceDescriptor {
                            id: self.id,
                            output: PortDescriptor {
                                port_id: String::from_str("Data"),
                                port_type: String::from_str("_any_"),
                            },
                            period: None,
                            uri: Some(String::from_str("builtin://zenoh/source")),
                            configuration: merge_overwrite(
                                &global_configuration,
                                &self.configuration,
                            ),
                            runtime: None,
                        };
                        Ok(d)
                    },
                    _ => Err(ZFError::new(
                        ErrorKind::ParsingError,
                        String::from_str("the descriptor does not describe a source"),
                    )),
                }
            },
        }
    }

    /// Resolves this node as a sink, symmetrically to `load_source`.
    pub fn load_sink(
        self,
        registry: &DescriptorRegistry,
        global_configuration: Option<Configuration>,
    ) -> (r: Result<SinkDescriptor, ZFError>)
        requires
            registry.wf(),
            opt_config_wf(global_configuration),
            self.wf(),
        ensures
            crate::strutil::spec_has_prefix(self.descriptor@, "file://"@) ==> {
                let dom_has = registry.as_map().dom().contains(self.descriptor@);
                &&& !dom_has ==> (r matches Err(e) && e.kind == ErrorKind::IOError)
                &&& dom_has ==> match registry.as_map()[self.descriptor@].sink {
                    Some(snk) => r matches Ok(d) && d.id@ == self.id@ && snk.same_shape(d)
                        && opt_config_map(d.configuration) == opt_config_map(
                        global_configuration,
                    ).union_prefer_right(opt_config_map(snk.configuration)) && d.wf(),
                    None => r matches Err(e) && e.kind == ErrorKind::ParsingError,
                }
            },
            !crate::strutil::spec_has_prefix(self.descriptor@, "file://"@) ==> (
            if self.descriptor@ == "builtin://zenoh/sink"@ {
                match self.configuration {
                    Some(c) => r matches Ok(d) && d.id@ == self.id@ && d.input.dv() == (
                        "Data"@,
                        "_any_"@,
                    ) && opt_str_view(d.uri) == Some("builtin://zenoh/sink"@)
                        && opt_config_map(d.configuration) == opt_config_map(
                        global_configuration,
                    ).union_prefer_right(c.as_map()) && d.wf(),
                    None => r matches Err(e) && e.kind == ErrorKind::MissingConfiguration,
                }
            } else if self.descriptor@ == "builtin://zenoh/source"@ {
                match self.configuration {
                    Some(c) => r matches Err(e) && e.kind == ErrorKind::ParsingError,
                    None => r matches Err(e) && e.kind == ErrorKind::MissingConfiguration,
                }
            } else if self.descriptor@ == "builtin://zenoh/operator"@ {
                r matches Err(e) && e.kind == ErrorKind::Unimplemented
            } else {
                r matches Err(e) && e.kind == ErrorKind::ParsingError
            }),
    {
        proof {
            reveal_strlit("file://");
            reveal_strlit("builtin://zenoh/source");
            reveal_strlit("builtin://zenoh/sink");
            reveal_strlit("builtin://zenoh/operator");
            reveal_strlit("Data");
            reveal_strlit("_any_");
            assert("builtin://zenoh/source"@.subrange(0, 7)[0] == 'b');
            assert("builtin://zenoh/sink"@.subrange(0, 7)[0] == 'b');
            assert("builtin://zenoh/operator"@.subrange(0, 7)[0] == 'b');
            assert(!spec_has_prefix("builtin://zenoh/source"@, "file://"@));
            assert(!spec_has_prefix("builtin://zenoh/sink"@, "file://"@));
            assert(!spec_has_prefix("builtin://zenoh/operator"@, "file://"@));
        }
        let parsed_uri = match parse_uri(self.descriptor.as_str()) {
            Ok(u) => u,
            Err(e) => {
                return Err(e);
            },
        };
        match parsed_uri {
            URIStruct::File(_path) => match registry.map.get(&self.descriptor) {
                Some(parsed) => match &parsed.sink {
                    Some(snk) => {
                        let mut d = snk.duplicate();
                        d.id = self.id;
                        d.configuration = merge_overwrite(
                            &global_configuration,
                            &d.configuration,
                        );
                        Ok(d)
                    },
                    None => Err(ZFError::new(
                        ErrorKind::ParsingError,
                        String::from_str("the descriptor does not describe a sink"),
                    )),
                },
                None => Err(ZFError::new(
                    ErrorKind::IOError,
                    String::from_str("no descriptor was loaded for the URI"),
                )),
            },
            URIStruct::Builtin(mw, kind) => {
                match crate::uri::make_builtin_descriptor(mw, kind, &self.configuration) {
                    Ok(_) => (),
                    Err(e) => {
                        return Err(e);
                    },
                }
                match kind {
                    NodeKind::Sink => {
                        let d = SinkDescriptor {
                            id: self.id,
                            input: PortDescriptor {
                                port_id: String::from_str("Data"),
                                port_type: String::from_str("_any_"),
                            },
                            uri: Some(String::from_str("builtin://zenoh/sink")),
                            configuration: merge_overwrite(
                                &global_configuration,
                                &self.configuration,
                            ),
                            runtime: None,
                        };
                        Ok(d)
                    },
                    _ => Err(ZFError::new(
                        ErrorKind::ParsingError,
                        String::from_str("the descriptor does not describe a sink"),
                    )),
                }
            },
        }
    }
}

/// The configuration of a resolved descriptor: the outer mapping with the
/// descriptor's own entries winning.
pub open spec fn spec_resolve_config(
    outer: Map<Seq<char>, String>,
    inner: Map<Seq<char>, String>,
) -> Map<Seq<char>, String> {
    outer.union_prefer_right(inner)
}

/// Resolving a descriptor a second time, under its own identifier and no
/// outer configuration, changes nothing: flattening a non-composite
/// descriptor is idempotent.
pub proof fn lemma_flatten_idempotent(outer: Map<Seq<char>, String>, inner: Map<Seq<char>, String>)
    ensures
        spec_resolve_config(Map::empty(), spec_resolve_config(outer, inner))
            == spec_resolve_config(outer, inner),
{
    assert(Map::empty().union_prefer_right(outer.union_prefer_right(inner))
        =~= outer.union_prefer_right(inner));
}

/// The message a descriptor that parses neither as a simple operator nor as
/// a composite is refused with: it names the URI and carries both parser
/// diagnostics, where the parse outcomes kept them.
pub open spec fn neither_parse_message(
    uri: Seq<char>,
    simple_d: Option<Seq<char>>,
    composite_d: Option<Seq<char>>,
) -> Seq<char> {
    "Could not parse < "@ + uri + " > as an operator"@ + (match simple_d {
        Some(d) => "; simple reading: "@ + d,
        None => Seq::empty(),
    }) + (match composite_d {
        Some(d) => "; composite reading: "@ + d,
        None => Seq::empty(),
    })
}

/// Whether a composite's child names a registered descriptor that parses as
/// a simple operator: such a child always resolves, in place.
pub open spec fn child_simple_in_registry(reg: DescriptorRegistry, child: NodeDescriptor) -> bool {
    &&& crate::strutil::spec_has_prefix(child.descriptor@, "file://"@)
    &&& reg.as_map().dom().contains(child.descriptor@)
    &&& reg.as_map()[child.descriptor@].simple is Some
}

/// What inlining owes each child that parses as a simple operator: among the
/// resolved operators stands one carrying the child's identifier prefixed by
/// the composite's flattened path, the simple descriptor's shape, and the
/// handed-down configuration merged under the descriptor's own.
pub open spec fn simple_child_resolved(
    reg: DescriptorRegistry,
    parent: Seq<char>,
    child: NodeDescriptor,
    gconf: Map<Seq<char>, String>,
    ops: Seq<OperatorDescriptor>,
) -> bool {
    child_simple_in_registry(reg, child) ==> exists|a: int|
        0 <= a < ops.len() && {
            let op = reg.as_map()[child.descriptor@].simple->Some_0;
            let o = #[trigger] ops[a];
            &&& o.id@ == child_path(parent, child.id@)
            &&& op.same_shape(o)
            &&& opt_config_map(o.configuration) == spec_resolve_config(
                gconf,
                opt_config_map(op.configuration),
            )
        }
}

impl CompositeOperatorDescriptor {
    /// Inlines this composite below the flattened path `id`: reroutes the
    /// flow's links that touch its exposed ports, adds its inner links with
    /// both endpoints moved below `id`, and flattens every child below
    /// `id/<child>`.  Every resolved operator lies strictly below `id` and
    /// identifiers never collide.
    pub fn flatten(
        &self,
        registry: &DescriptorRegistry,
        id: NodeId,
        links: &mut Vec<LinkDescriptor>,
        global_configuration: Option<Configuration>,
        ancestors: &mut Vec<String>,
    ) -> (r: Result<Vec<OperatorDescriptor>, ZFError>)
        requires
            registry.wf(),
            ancestors_wf(*registry, old(ancestors)@),
            composite_wf(*self),
            opt_config_wf(global_configuration),
        ensures
            final(ancestors)@ == old(ancestors)@,
            r matches Ok(ops) ==> {
                &&& forall|i: int| 0 <= i < ops@.len() ==> strictly_under(
                    id@,
                    (#[trigger] ops@[i]).id@,
                )
                &&& forall|i: int, j: int| 0 <= i < j < ops@.len() ==> ops@[i].id@
                    != ops@[j].id@
                &&& forall|i: int| 0 <= i < ops@.len() ==> (#[trigger] ops@[i]).wf()
                &&& forall|i: int| 0 <= i < self.operators@.len() ==> simple_child_resolved(
                    *registry,
                    id@,
                    #[trigger] self.operators@[i],
                    spec_resolve_config(
                        opt_config_map(global_configuration),
                        opt_config_map(self.configuration),
                    ),
                    ops@,
                )
            },
            ((forall|j: int| 0 <= j < old(links)@.len() ==> (#[trigger] old(
                links,
            )@[j]).to.node@ != id@ && old(links)@[j].from.node@ != id@) && (forall|i: int|
                0 <= i < self.operators@.len() ==> child_simple_in_registry(
                *registry,
                #[trigger] self.operators@[i],
            ))) ==> r is Ok,
            (r is Ok && (forall|i: int| 0 <= i < self.operators@.len()
                ==> child_simple_in_registry(*registry, #[trigger] self.operators@[i]))) ==> {
                &&& final(links)@.len() == old(links)@.len() + self.links@.len()
                &&& (forall|j: int| 0 <= j < old(links)@.len() ==> link_rerouted(
                    #[trigger] old(links)@[j],
                    final(links)@[j],
                    id@,
                    self.inputs@,
                    self.outputs@,
                ))
                &&& (forall|k: int| 0 <= k < self.links@.len()
                    ==> (#[trigger] final(links)@[old(links)@.len() + k]).dv()
                    == prefixed_link_dv(id@, self.links@[k]))
            },
        decreases registry.map.entries@.len() - ancestors@.len(), 1int,
    {
        let ghost simple_ok = (forall|j: int| 0 <= j < old(links)@.len() ==> (#[trigger] old(
            links,
        )@[j]).to.node@ != id@ && old(links)@[j].from.node@ != id@) && (forall|i: int|
            0 <= i < self.operators@.len() ==> child_simple_in_registry(
            *registry,
            #[trigger] self.operators@[i],
        ));
        let ghost gmap = spec_resolve_config(
            opt_config_map(global_configuration),
            opt_config_map(self.configuration),
        );
        let ghost allsimple = forall|i: int| 0 <= i < self.operators@.len()
            ==> child_simple_in_registry(*registry, #[trigger] self.operators@[i]);
        let merged = merge_overwrite(&global_configuration, &self.configuration);
        match patch_external_links(links, &id, &self.inputs, &self.outputs) {
            Ok(()) => (),
            Err(e) => {
                return Err(e);
            },
        }
        let ghost links_a = links@;
        prefix_inner_links(links, &id, &self.links);
        let ghost links_b = links@;
        let mut result: Vec<OperatorDescriptor> = Vec::new();
        let n = self.operators.len();
        for i in 0..n
            invariant
                registry.wf(),
                composite_wf(*self),
                opt_config_wf(merged),
                n == self.operators@.len(),
                ancestors@ == old(ancestors)@,
                ancestors_wf(*registry, ancestors@),
                forall|a: int| 0 <= a < result@.len() ==> exists|j: int|
                    0 <= j < i && under(
                        child_path(id@, self.operators@[j].id@),
                        (#[trigger] result@[a]).id@,
                    ),
                forall|a: int, b: int| 0 <= a < b < result@.len() ==> result@[a].id@
                    != result@[b].id@,
                forall|a: int| 0 <= a < result@.len() ==> (#[trigger] result@[a]).wf(),
                opt_config_map(merged) == gmap,
                simple_ok ==> forall|t: int| 0 <= t < n ==> child_simple_in_registry(
                    *registry,
                    #[trigger] self.operators@[t],
                ),
                allsimple == (forall|t: int| 0 <= t < n ==> child_simple_in_registry(
                    *registry,
                    #[trigger] self.operators@[t],
                )),
                allsimple ==> links@ == links_b,
                forall|j: int| 0 <= j < i ==> simple_child_resolved(
                    *registry,
                    id@,
                    #[trigger] self.operators@[j],
                    gmap,
                    result@,
                ),
            decreases registry.map.entries@.len() - ancestors@.len(), 1int, n - i,
        {
            let child = self.operators[i].duplicate();
            proof {
                reveal_strlit("/");
                assert("/"@ =~= sep());
            }
            let new_id = concat3(id.as_str(), "/", child.id.as_str());
            proof {
                assert(new_id@ == child_path(id@, self.operators@[i as int].id@));
            }
            let child_global = dup_opt_config(&merged);
            let res = child.flatten(registry, new_id, links, child_global, ancestors);
            match res {
                Err(e) => {
                    proof {
                        if simple_ok {
                            assert(child_simple_in_registry(
                                *registry,
                                self.operators@[i as int],
                            ));
                            assert(child.descriptor@ == self.operators@[i as int].descriptor@);
                            assert(false);
                        }
                    }
                    return Err(e);
                },
                Ok(mut ops) => {
                    let ghost old_result = result@;
                    let ghost batch = ops@;
                    proof {
                        assert forall|a: int, b: int|
                            0 <= a < old_result.len() && 0 <= b < batch.len()
                            implies old_result[a].id@ != batch[b].id@ by {
                            let j = choose|j: int|
                                0 <= j < i && under(
                                    child_path(id@, self.operators@[j].id@),
                                    old_result[a].id@,
                                );
                            assert(self.operators@[j].id@ != self.operators@[i as int].id@);
                            lemma_children_disjoint(
                                id@,
                                self.operators@[j].id@,
                                self.operators@[i as int].id@,
                                old_result[a].id@,
                                batch[b].id@,
                            );
                        }
                    }
                    result.append(&mut ops);
                    proof {
                        assert forall|a: int| 0 <= a < result@.len() implies exists|j: int|
                            0 <= j < i + 1 && under(
                                child_path(id@, self.operators@[j].id@),
                                (#[trigger] result@[a]).id@,
                            ) by {
                            if a < old_result.len() {
                                assert(result@[a] == old_result[a]);
                                let j = choose|j: int|
                                    0 <= j < i && under(
                                        child_path(id@, self.operators@[j].id@),
                                        old_result[a].id@,
                                    );
                                assert(0 <= j < i + 1 && under(
                                    child_path(id@, self.operators@[j].id@),
                                    result@[a].id@,
                                ));
                            } else {
                                assert(result@[a] == batch[a - old_result.len()]);
                                assert(under(
                                    child_path(id@, self.operators@[i as int].id@),
                                    result@[a].id@,
                                ));
                            }
                        }
                        assert forall|j: int| 0 <= j < i + 1 implies simple_child_resolved(
                            *registry,
                            id@,
                            #[trigger] self.operators@[j],
                            gmap,
                            result@,
                        ) by {
                            if child_simple_in_registry(*registry, self.operators@[j]) {
                                if j < i {
                                    let a = choose|a: int|
                                        0 <= a < old_result.len() && {
                                            let op = registry.as_map()[self.operators@[
                                            j].descriptor@].simple->Some_0;
                                            let o = #[trigger] old_result[a];
                                            &&& o.id@ == child_path(
                                                id@,
                                                self.operators@[j].id@,
                                            )
                                            &&& op.same_shape(o)
                                            &&& opt_config_map(o.configuration)
                                                == spec_resolve_config(
                                                gmap,
                                                opt_config_map(op.configuration),
                                            )
                                        };
                                    assert(result@[a] == old_result[a]);
                                } else {
                                    assert(child.descriptor@ == self.operators@[
                                    j].descriptor@);
                                    assert(batch.len() == 1);
                                    assert(result@[old_result.len() as int] == batch[0]);
                                }
                            }
                        }
                    }
                },
            }
        }
        proof {
            assert forall|a: int| 0 <= a < result@.len() implies strictly_under(
                id@,
                (#[trigger] result@[a]).id@,
            ) by {
                let j = choose|j: int|
                    0 <= j < n && under(
                        child_path(id@, self.operators@[j].id@),
                        result@[a].id@,
                    );
                lemma_under_child(id@, self.operators@[j].id@, result@[a].id@);
            }
        }
        Ok(result)
    }
}

impl NodeDescriptor {
    /// Flattens this node into resolved operators: a simple descriptor is
    /// resolved in place under the caller-supplied identifier, a composite
    /// one is inlined recursively, and a descriptor already on the ancestor
    /// stack is refused as a cycle.
    pub fn flatten(
        self,
        registry: &DescriptorRegistry,
        id: NodeId,
        links: &mut Vec<LinkDescriptor>,
        global_configuration: Option<Configuration>,
        ancestors: &mut Vec<String>,
    ) -> (r: Result<Vec<OperatorDescriptor>, ZFError>)
        requires
            registry.wf(),
            ancestors_wf(*registry, old(ancestors)@),
            opt_config_wf(global_configuration),
            self.wf(),
        ensures
            final(ancestors)@ == old(ancestors)@,
            r matches Ok(ops) ==> {
                &&& forall|i: int| 0 <= i < ops@.len() ==> under(id@, (#[trigger] ops@[i]).id@)
                &&& forall|i: int, j: int| 0 <= i < j < ops@.len() ==> ops@[i].id@
                    != ops@[j].id@
                &&& forall|i: int| 0 <= i < ops@.len() ==> (#[trigger] ops@[i]).wf()
            },
            crate::strutil::spec_has_prefix(self.descriptor@, "file://"@) ==> {
                let dom_has = registry.as_map().dom().contains(self.descriptor@);
                &&& !dom_has ==> (r matches Err(e) && e.kind == ErrorKind::IOError)
                &&& dom_has ==> {
                    let parsed = registry.as_map()[self.descriptor@];
                    &&& parsed.simple matches Some(op) ==> (r matches Ok(ops) && ops@.len() == 1
                        && ops@[0].id@ == id@ && op.same_shape(ops@[0]) && opt_config_map(
                        ops@[0].configuration,
                    ) == spec_resolve_config(
                        opt_config_map(global_configuration),
                        opt_config_map(op.configuration),
                    ) && final(links)@ == old(links)@)
                    &&& (parsed.simple is None && parsed.composite matches Some(c)) ==> {
                        &&& (exists|ix: int|
                            0 <= ix < old(ancestors)@.len() && old(ancestors)@[ix]@
                                == self.descriptor@) ==> (r matches Err(e) && e.kind
                            == ErrorKind::ParsingError && exists|ix: int|
                            0 <= ix < old(ancestors)@.len() && old(ancestors)@[ix]@
                                == self.descriptor@ && (forall|j: int| 0 <= j < ix
                                ==> old(ancestors)@[j]@ != self.descriptor@) && e.message@
                                == cycle_message(
                                self.descriptor@,
                                old(ancestors)@.subrange(ix, old(ancestors)@.len() as int),
                            ))
                        &&& !(exists|ix: int|
                            0 <= ix < old(ancestors)@.len() && old(ancestors)@[ix]@
                                == self.descriptor@) ==> ({
                            let comp = parsed.composite->Some_0;
                            &&& (r matches Ok(ops) ==> forall|i: int|
                                0 <= i < comp.operators@.len() ==> simple_child_resolved(
                                    *registry,
                                    id@,
                                    #[trigger] comp.operators@[i],
                                    spec_resolve_config(
                                        opt_config_map(global_configuration),
                                        opt_config_map(comp.configuration),
                                    ),
                                    ops@,
                                ))
                            &&& (((forall|j: int|
                                0 <= j < old(links)@.len() ==> (#[trigger] old(
                                    links,
                                )@[j]).to.node@ != id@ && old(links)@[j].from.node@ != id@) && (
                            forall|i: int|
                                0 <= i < comp.operators@.len() ==> child_simple_in_registry(
                                    *registry,
                                    #[trigger] comp.operators@[i],
                                ))) ==> r is Ok)
                            &&& ((r is Ok && (forall|i: int|
                                0 <= i < comp.operators@.len() ==> child_simple_in_registry(
                                    *registry,
                                    #[trigger] comp.operators@[i],
                                ))) ==> {
                                &&& final(links)@.len() == old(links)@.len()
                                    + comp.links@.len()
                                &&& (forall|j: int| 0 <= j < old(links)@.len()
                                    ==> link_rerouted(
                                    #[trigger] old(links)@[j],
                                    final(links)@[j],
                                    id@,
                                    comp.inputs@,
                                    comp.outputs@,
                                ))
                                &&& (forall|k: int| 0 <= k < comp.links@.len()
                                    ==> (#[trigger] final(links)@[old(links)@.len() + k]).dv()
                                    == prefixed_link_dv(id@, comp.links@[k]))
                            })
                        })
                    }
                    &&& (parsed.simple is None && parsed.composite is None) ==> (r matches Err(e)
                        && e.kind == ErrorKind::ParsingError && e.message@
                        == neither_parse_message(
                        self.descriptor@,
                        opt_str_view(parsed.simple_diagnostic),
                        opt_str_view(parsed.composite_diagnostic),
                    ) && final(links)@ == old(links)@)
                }
            },
            !crate::strutil::spec_has_prefix(self.descriptor@, "file://"@) ==> (
            if self.descriptor@ == "builtin://zenoh/operator"@ {
                r matches Err(e) && e.kind == ErrorKind::Unimplemented
            } else if (self.descriptor@ == "builtin://zenoh/source"@ || self.descriptor@
                == "builtin://zenoh/sink"@) {
                match self.configuration {
                    Some(c) => r matches Err(e) && e.kind == ErrorKind::ParsingError,
                    None => r matches Err(e) && e.kind == ErrorKind::MissingConfiguration,
                }
            } else {
                r matches Err(e) && e.kind == ErrorKind::ParsingError
            }),
        decreases registry.map.entries@.len() - ancestors@.len(), 0int,
    {
        proof {
            reveal_strlit("file://");
            reveal_strlit("builtin://zenoh/source");
            reveal_strlit("builtin://zenoh/sink");
            reveal_strlit("builtin://zenoh/operator");
            assert("builtin://zenoh/source"@.subrange(0, 7)[0] == 'b');
            assert("builtin://zenoh/sink"@.subrange(0, 7)[0] == 'b');
            assert("builtin://zenoh/operator"@.subrange(0, 7)[0] == 'b');
            assert(!spec_has_prefix("builtin://zenoh/source"@, "file://"@));
            assert(!spec_has_prefix("builtin://zenoh/sink"@, "file://"@));
            assert(!spec_has_prefix("builtin://zenoh/operator"@, "file://"@));
        }
        let parsed_uri = match parse_uri(self.descriptor.as_str()) {
            Ok(u) => u,
            Err(e) => {
                return Err(e);
            },
        };
        match parsed_uri {
            URIStruct::File(_path) => match registry.map.get(&self.descriptor) {
                None => Err(ZFError::new(
                    ErrorKind::IOError,
                    String::from_str("no descriptor was loaded for the URI"),
                )),
                Some(parsed) => {
                    if let Some(op) = &parsed.simple {
                        let mut simple = op.duplicate();
                        simple.configuration = merge_overwrite(
                            &global_configuration,
                            &simple.configuration,
                        );
                        simple.id = id;
                        let mut ops: Vec<OperatorDescriptor> = Vec::new();
                        ops.push(simple);
                        Ok(ops)
                    } else if let Some(comp) = &parsed.composite {
                        match find_ancestor(ancestors, &self.descriptor) {
                            Some(ix) => {
                                let msg = render_cycle_message(ancestors, ix, &self.descriptor);
                                Err(ZFError::new(ErrorKind::ParsingError, msg))
                            },
                            None => {
                                proof {
                                    lemma_ancestors_bound(*registry, ancestors@);
                                }
                                ancestors.push(self.descriptor.clone());
                                proof {
                                    assert(registry.as_map().dom().contains(self.descriptor@));
                                    assert forall|a: int, b: int|
                                        0 <= a < b < ancestors@.len()
                                        implies ancestors@[a]@ != ancestors@[b]@ by {
                                        if b < ancestors@.len() - 1 {
                                            assert(ancestors@[a] == old(ancestors)@[a]);
                                            assert(ancestors@[b] == old(ancestors)@[b]);
                                        } else {
                                            assert(ancestors@[a] == old(ancestors)@[a]);
                                            assert(ancestors@[b]@ == self.descriptor@);
                                        }
                                    }
                                    lemma_ancestors_bound(*registry, ancestors@);
                                }
                                let res = comp.flatten(
                                    registry,
                                    id,
                                    links,
                                    global_configuration,
                                    ancestors,
                                );
                                let _ = ancestors.pop();
                                proof {
                                    assert(ancestors@ =~= old(ancestors)@);
                                }
                                match res {
                                    Ok(ops) => Ok(ops),
                                    Err(e) => Err(e),
                                }
                            },
                        }
                    } else {
                        let mut msg = concat3(
                            "Could not parse < ",
                            self.descriptor.as_str(),
                            " > as an operator",
                        );
                        if let Some(d) = &parsed.simple_diagnostic {
                            msg.append("; simple reading: ");
                            msg.append(d.as_str());
                        } else {
                            proof {
                                assert(msg@ + Seq::<char>::empty() =~= msg@);
                            }
                        }
                        if let Some(d) = &parsed.composite_diagnostic {
                            msg.append("; composite reading: ");
                            msg.append(d.as_str());
                        } else {
                            proof {
                                assert(msg@ + Seq::<char>::empty() =~= msg@);
                            }
                        }
                        Err(ZFError::new(ErrorKind::ParsingError, msg))
                    }
                },
            },
            URIStruct::Builtin(_mw, kind) => match kind {
                NodeKind::Operator => Err(ZFError::new(
                    ErrorKind::Unimplemented,
                    String::from_str("zenoh builtin nodes can only be a source or a sink"),
                )),
                _ => match &self.configuration {
                    Some(_) => Err(ZFError::new(
                        ErrorKind::ParsingError,
                        String::from_str("could not parse the descriptor as an operator"),
                    )),
                    None => Err(ZFError::new(
                        ErrorKind::MissingConfiguration,
                        String::from_str("a builtin zenoh node needs a configuration"),
                    )),
                },
            },
        }
    }
}

} // verus!
