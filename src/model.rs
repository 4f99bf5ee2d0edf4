//! An in-memory HTML document tree and its serialization.
//!
//! A tree is built bottom-up from values (see [`IntoContent`]) and is
//! serialized into a byte sink. The bytes written for a node are given by the
//! spec functions [`node_html`], [`element_html`] and [`nodes_html`]; text is
//! written verbatim, without escaping.
use vstd::prelude::*;
use vstd::utf8::encode_utf8;

verus! {

/// An HTML element: a tag name, its attributes in order, and its children.
#[derive(Debug, PartialEq, Eq)]
pub struct Element {
    pub name: &'static str,
    pub attributes: Vec<(&'static str, &'static str)>,
    pub content: Content,
}

/// The children of an element, in order.
#[derive(Debug, PartialEq, Eq)]
pub struct Content(Vec<Node>);

/// An HTML node
///
/// A node can either be an element or text. Please note that HTML in text nodes
/// is not escaped at this point, so this can be used to inject HTML into the
/// document.
#[derive(Debug, PartialEq, Eq)]
pub enum Node {
    Element(Element),
    Raw(String),
    Text(&'static str),
}

impl View for Content {
    type V = Seq<Node>;

    closed spec fn view(&self) -> Seq<Node> {
        self.0@
    }
}

/// The UTF-8 bytes of a piece of text.
pub open spec fn bytes_of(s: Seq<char>) -> Seq<u8> {
    encode_utf8(s)
}

/// ` name="value"`
pub open spec fn attribute_html(attribute: (&'static str, &'static str)) -> Seq<u8> {
    bytes_of(" "@) + bytes_of(attribute.0@) + bytes_of("=\""@) + bytes_of(attribute.1@) + bytes_of(
        "\""@,
    )
}

/// The attributes, each written as ` name="value"`, in order.
pub open spec fn attributes_html(attributes: Seq<(&'static str, &'static str)>) -> Seq<u8>
    decreases attributes.len(),
{
    if attributes.len() == 0 {
        Seq::empty()
    } else {
        attribute_html(attributes[0]) + attributes_html(attributes.drop_first())
    }
}

/// `<name` followed by the attributes: what an element writes before it
/// either closes itself or opens its children.
pub open spec fn start_tag_html(e: Element) -> Seq<u8> {
    bytes_of("<"@) + bytes_of(e.name@) + attributes_html(e.attributes@)
}

/// The bytes that an element serializes to.
pub open spec fn element_html(e: Element) -> Seq<u8>
    decreases e,
{
    if e.content@.len() == 0 {
        start_tag_html(e) + bytes_of(" />"@)
    } else {
        start_tag_html(e) + bytes_of(">"@) + nodes_html(e.content@) + bytes_of("</"@) + bytes_of(
            e.name@,
        ) + bytes_of(">"@)
    }
}

/// The bytes that a node serializes to.
pub open spec fn node_html(n: Node) -> Seq<u8>
    decreases n,
{
    match n {
        Node::Element(e) => element_html(e),
        Node::Raw(html) => bytes_of(html@),
        Node::Text(text) => bytes_of(text@),
    }
}

/// The serializations of the nodes, concatenated in order.
pub open spec fn nodes_html(nodes: Seq<Node>) -> Seq<u8>
    decreases nodes,
{
    if nodes.len() == 0 {
        Seq::empty()
    } else {
        node_html(nodes[0]) + nodes_html(nodes.subrange(1, nodes.len() as int))
    }
}

/// Appends the UTF-8 bytes of `s` to `target`.
fn push_str(target: &mut Vec<u8>, s: &str)
    ensures
        final(target)@ == old(target)@ + bytes_of(s@),
{
    let bytes = s.as_bytes();
    let mut i: usize = 0;
    while i < bytes.len()
        invariant
            i <= bytes@.len(),
            bytes@ == bytes_of(s@),
            target@ == old(target)@ + bytes@.subrange(0, i as int),
        decreases bytes@.len() - i,
    {
        target.push(bytes[i]);
        i = i + 1;
        assert(bytes@.subrange(0, i as int) =~= bytes@.subrange(0, i - 1) + seq![bytes@[i - 1]]);
    }
    assert(bytes@.subrange(0, i as int) =~= bytes@);
}

impl Element {
    /// Writes the element's HTML to `target`: `<name`, each attribute as
    /// ` name="value"`, then ` />` if it has no children, else `>`, the
    /// children in order and `</name>`.
    pub fn write_to(&self, target: &mut Vec<u8>)
        ensures
            final(target)@ == old(target)@ + element_html(*self),
        decreases self,
    {
        push_str(target, "<");
        push_str(target, self.name);
        assert(self.attributes@.subrange(0, self.attributes@.len() as int) =~= self.attributes@);
        let mut i: usize = 0;
        while i < self.attributes.len()
            invariant
                i <= self.attributes@.len(),
                target@ + attributes_html(self.attributes@.subrange(i as int, self.attributes@.len() as int))
                    == old(target)@ + start_tag_html(*self),
            decreases self.attributes@.len() - i,
        {
            let (name, value) = self.attributes[i];
            let ghost rest = self.attributes@.subrange(i as int, self.attributes@.len() as int);
            assert(rest.drop_first() =~= self.attributes@.subrange(i + 1, self.attributes@.len() as int));
            push_str(target, " ");
            push_str(target, name);
            push_str(target, "=\"");
            push_str(target, value);
            push_str(target, "\"");
            i = i + 1;
        }
        assert(self.attributes@.subrange(i as int, self.attributes@.len() as int) =~= Seq::empty());
        if self.content.is_empty() {
            push_str(target, " />");
        } else {
            push_str(target, ">");
            self.content.write_to(target);
            push_str(target, "</");
            push_str(target, self.name);
            push_str(target, ">");
        }
    }
}

impl Content {
    /// Empty content.
    pub fn new() -> (r: Self)
        ensures
            r@ == Seq::<Node>::empty(),
    {
        Content(Vec::new())
    }

    /// The nodes, in order.
    pub fn as_slice(&self) -> (r: &[Node])
        ensures
            r@ == self@,
    {
        self.0.as_slice()
    }

    /// Whether there are no children.
    pub fn is_empty(&self) -> (r: bool)
        ensures
            r == (self@.len() == 0),
    {
        self.0.len() == 0
    }

    /// The nodes that `items` convert to, concatenated in order.
    pub fn from_iter<T: IntoContent>(items: Vec<T>) -> (r: Self)
        ensures
            r@ == flatten_items(items@),
    {
        let ghost all = items@;
        let mut items = items;
        let mut content = Content::new();
        while items.len() > 0
            invariant
                content@ + flatten_items(items@) == flatten_items(all),
            decreases items@.len(),
        {
            let ghost before = items@;
            let item = items.remove(0);
            assert(before.subrange(1, before.len() as int) =~= items@);
            content.append(item.into_content());
            assert(content@ + flatten_items(items@) =~= flatten_items(all));
        }
        assert(content@ + flatten_items(items@) =~= content@);
        content
    }

    /// Moves the nodes of `other` after the existing ones.
    pub fn append(&mut self, other: Content)
        ensures
            final(self)@ == old(self)@ + other@,
    {
        let mut other = other;
        self.0.append(&mut other.0);
    }

    /// Writes the HTML of each node to `target`, in order.
    pub fn write_to(&self, target: &mut Vec<u8>)
        ensures
            final(target)@ == old(target)@ + nodes_html(self@),
        decreases self,
    {
        let nodes = &self.0;
        assert(nodes@.subrange(0, nodes@.len() as int) =~= nodes@);
        let mut j: usize = 0;
        while j < nodes.len()
            invariant
                j <= nodes@.len(),
                nodes@ == self@,
                target@ + nodes_html(nodes@.subrange(j as int, nodes@.len() as int)) == old(target)@
                    + nodes_html(self@),
            decreases nodes@.len() - j,
        {
            let ghost rest = nodes@.subrange(j as int, nodes@.len() as int);
            assert(rest.subrange(1, rest.len() as int) =~= nodes@.subrange(j + 1, nodes@.len() as int));
            nodes[j].write_to(target);
            j = j + 1;
        }
        assert(nodes@.subrange(j as int, nodes@.len() as int) =~= Seq::<Node>::empty());
    }

    /// Adds a node after the existing ones.
    pub fn push(&mut self, node: Node)
        ensures
            final(self)@ == old(self)@.push(node),
    {
        self.0.push(node)
    }
}

impl Node {
    /// Writes the node's HTML to `target`: an element as
    /// [`Element::write_to`] does, raw HTML and text verbatim.
    pub fn write_to(&self, target: &mut Vec<u8>)
        ensures
            final(target)@ == old(target)@ + node_html(*self),
        decreases self,
    {
        match self {
            Node::Element(element) => element.write_to(target),
            Node::Raw(html) => push_str(target, html.as_str()),
            Node::Text(text) => push_str(target, text),
        }
    }
}

/// Values that expand into an ordered sequence of nodes: the way a tree is
/// composed. A node, an element or a text literal expands into itself; a
/// vector or a tuple into the expansions of its items, in order.
pub trait IntoContent: Sized {
    /// The nodes that the value expands into.
    spec fn content_nodes(self) -> Seq<Node>;

    fn into_content(self) -> (r: Content)
        ensures
            r@ == self.content_nodes(),
    ;
}

/// The expansions of `items`, concatenated in order.
pub open spec fn flatten_items<T: IntoContent>(items: Seq<T>) -> Seq<Node>
    decreases items.len(),
{
    if items.len() == 0 {
        Seq::empty()
    } else {
        items[0].content_nodes() + flatten_items(items.subrange(1, items.len() as int))
    }
}

impl IntoContent for Content {
    open spec fn content_nodes(self) -> Seq<Node> {
        self@
    }

    fn into_content(self) -> (r: Content) {
        self
    }
}

impl IntoContent for Node {
    open spec fn content_nodes(self) -> Seq<Node> {
        seq![self]
    }

    fn into_content(self) -> (r: Content) {
        let mut content = Content::new();
        content.push(self);
        content
    }
}

impl IntoContent for Element {
    open spec fn content_nodes(self) -> Seq<Node> {
        seq![Node::Element(self)]
    }

    fn into_content(self) -> (r: Content) {
        Node::Element(self).into_content()
    }
}

impl IntoContent for &'static str {
    open spec fn content_nodes(self) -> Seq<Node> {
        seq![Node::Text(self)]
    }

    fn into_content(self) -> (r: Content) {
        Node::Text(self).into_content()
    }
}

impl<T: IntoContent> IntoContent for Vec<T> {
    open spec fn content_nodes(self) -> Seq<Node> {
        flatten_items(self@)
    }

    fn into_content(self) -> (r: Content) {
        Content::from_iter(self)
    }
}

impl IntoContent for () {
    open spec fn content_nodes(self) -> Seq<Node> {
        Seq::empty()
    }

    fn into_content(self) -> (r: Content) {
        Content::new()
    }
}

impl<A: IntoContent> IntoContent for (A,) {
    open spec fn content_nodes(self) -> Seq<Node> {
        self.0.content_nodes()
    }

    fn into_content(self) -> (r: Content) {
        self.0.into_content()
    }
}

impl<A: IntoContent, B: IntoContent> IntoContent for (A, B) {
    open spec fn content_nodes(self) -> Seq<Node> {
        self.0.content_nodes() + self.1.content_nodes()
    }

    fn into_content(self) -> (r: Content) {
        let (a, b) = self;
        let mut content = a.into_content();
        content.append(b.into_content());
        content
    }
}

impl<A: IntoContent, B: IntoContent, C: IntoContent> IntoContent for (A, B, C) {
    open spec fn content_nodes(self) -> Seq<Node> {
        self.0.content_nodes() + self.1.content_nodes() + self.2.content_nodes()
    }

    fn into_content(self) -> (r: Content) {
        let (a, b, c) = self;
        let mut content = a.into_content();
        content.append(b.into_content());
        content.append(c.into_content());
        content
    }
}

impl<A: IntoContent, B: IntoContent, C: IntoContent, D: IntoContent> IntoContent for (A, B, C, D) {
    open spec fn content_nodes(self) -> Seq<Node> {
        self.0.content_nodes() + self.1.content_nodes() + self.2.content_nodes()
            + self.3.content_nodes()
    }

    fn into_content(self) -> (r: Content) {
        let (a, b, c, d) = self;
        let mut content = a.into_content();
        content.append(b.into_content());
        content.append(c.into_content());
        content.append(d.into_content());
        content
    }
}

impl<
    A: IntoContent,
    B: IntoContent,
    C: IntoContent,
    D: IntoContent,
    E: IntoContent,
> IntoContent for (A, B, C, D, E) {
    open spec fn content_nodes(self) -> Seq<Node> {
        self.0.content_nodes() + self.1.content_nodes() + self.2.content_nodes()
            + self.3.content_nodes() + self.4.content_nodes()
    }

    fn into_content(self) -> (r: Content) {
        let (a, b, c, d, e) = self;
        let mut content = a.into_content();
        content.append(b.into_content());
        content.append(c.into_content());
        content.append(d.into_content());
        content.append(e.into_content());
        content
    }
}

impl<
    A: IntoContent,
    B: IntoContent,
    C: IntoContent,
    D: IntoContent,
    E: IntoContent,
    F: IntoContent,
> IntoContent for (A, B, C, D, E, F) {
    open spec fn content_nodes(self) -> Seq<Node> {
        self.0.content_nodes() + self.1.content_nodes() + self.2.content_nodes()
            + self.3.content_nodes() + self.4.content_nodes() + self.5.content_nodes()
    }

    fn into_content(self) -> (r: Content) {
        let (a, b, c, d, e, f) = self;
        let mut content = a.into_content();
        content.append(b.into_content());
        content.append(c.into_content());
        content.append(d.into_content());
        content.append(e.into_content());
        content.append(f.into_content());
        content
    }
}

impl From<Vec<Node>> for Content {
    fn from(nodes: Vec<Node>) -> (r: Content) {
        Content(nodes)
    }
}

impl vstd::std_specs::convert::FromSpecImpl<Vec<Node>> for Content {
    open spec fn obeys_from_spec() -> bool {
        true
    }

    closed spec fn from_spec(nodes: Vec<Node>) -> Content {
        Content(nodes)
    }
}

/// Converting a vector of nodes gives content that holds exactly those
/// nodes, in order.
pub broadcast proof fn lemma_content_from_nodes(nodes: Vec<Node>)
    ensures
        (#[trigger] <Content as vstd::std_specs::convert::FromSpec<Vec<Node>>>::from_spec(
            nodes,
        ))@ == nodes@,
{
}

impl From<Element> for Node {
    fn from(element: Element) -> (r: Node) {
        Node::Element(element)
    }
}

impl vstd::std_specs::convert::FromSpecImpl<Element> for Node {
    open spec fn obeys_from_spec() -> bool {
        true
    }

    open spec fn from_spec(element: Element) -> Node {
        Node::Element(element)
    }
}

impl From<&'static str> for Node {
    fn from(text: &'static str) -> (r: Node) {
        Node::Text(text)
    }
}

impl vstd::std_specs::convert::FromSpecImpl<&'static str> for Node {
    open spec fn obeys_from_spec() -> bool {
        true
    }

    open spec fn from_spec(text: &'static str) -> Node {
        Node::Text(text)
    }
}

/// Serialization concatenates: the nodes of `a` followed by those of `b`
/// serialize to the serialization of `a` followed by that of `b`.
pub proof fn lemma_nodes_html_concat(a: Seq<Node>, b: Seq<Node>)
    ensures
        nodes_html(a + b) == nodes_html(a) + nodes_html(b),
    decreases a.len(),
{
    if a.len() == 0 {
        assert(a + b =~= b);
    } else {
        let ab = a + b;
        assert(ab.subrange(1, ab.len() as int) =~= a.subrange(1, a.len() as int) + b);
        lemma_nodes_html_concat(a.subrange(1, a.len() as int), b);
    }
}

/// A pair of composables serializes to the serialization of its first item
/// followed by that of its second; the empty tuple serializes to nothing.
pub proof fn lemma_pair_serializes_in_order<A: IntoContent, B: IntoContent>(a: A, b: B)
    ensures
        nodes_html((a, b).content_nodes()) == nodes_html(a.content_nodes()) + nodes_html(
            b.content_nodes(),
        ),
        nodes_html(().content_nodes()) == Seq::<u8>::empty(),
{
    lemma_nodes_html_concat(a.content_nodes(), b.content_nodes());
}

/// An element without children serializes to its start tag, then ` />`,
/// and to no end tag.
pub proof fn lemma_empty_element_self_closes(e: Element)
    requires
        e.content@.len() == 0,
    ensures
        element_html(e) == bytes_of("<"@) + bytes_of(e.name@) + attributes_html(e.attributes@)
            + bytes_of(" />"@),
{
}

/// Serialization is deterministic: writing the same node into two sinks
/// that hold the same bytes leaves them holding the same bytes.
pub proof fn lemma_serialization_deterministic(
    n: Node,
    before: Seq<u8>,
    first: Seq<u8>,
    second: Seq<u8>,
)
    requires
        first == before + node_html(n),
        second == before + node_html(n),
    ensures
        first == second,
{
}

} // verus!
