//! Commands declared by the server, and how they become the nodes of the
//! command graph sent to clients.

use vstd::prelude::*;

use crate::protocol::node::{
    Argument, BrigadierInteger, Literal, Node, NodeData, NodeDataView, NodeView,
};
use crate::protocol::VarInt;

verus! {

/// A command: its name and its arguments, in the order they are typed.
pub struct Command {
    pub name: String,
    pub arguments: Vec<Argument>,
}

/// The arguments of a command, as declared.
pub struct Arguments {}

/// A type that describes a command.
pub trait ToCommand {
    fn to_command() -> Command;
}

/// A type that a command argument is parsed into, with the properties of
/// the parser that reads it.
pub trait ParserProperties<T> {
    fn properties() -> T;
}

impl ParserProperties<BrigadierInteger> for i32 {
    /// Any `i32` is accepted: no least and no greatest value.
    fn properties() -> (p: BrigadierInteger)
        ensures
            p.min is None && p.max is None,
    {
        BrigadierInteger { min: None, max: None }
    }
}

/// The node of an argument: executable, without a redirect, with the node
/// at `child` as its only child when there is one.
pub open spec fn argument_node(a: Argument, child: Option<nat>) -> NodeView {
    NodeView {
        children: match child {
            Some(c) => seq![VarInt(c as i32)],
            None => Seq::empty(),
        },
        data: NodeData::Argument(a)@,
        is_executable: true,
        redirect_node: None,
    }
}

/// The nodes appended for the arguments `args` after `base` nodes: the last
/// argument first, without children, then each argument before it, whose
/// child is the node appended just before.
pub open spec fn argument_chain(args: Seq<Argument>, base: nat) -> Seq<NodeView> {
    Seq::new(
        args.len(),
        |i: int|
            argument_node(
                args[args.len() - 1 - i],
                if i == 0 {
                    None
                } else {
                    Some((base + i - 1) as nat)
                },
            ),
    )
}

/// The index of the node of the first argument, when there are arguments.
pub open spec fn chain_head(args: Seq<Argument>, base: nat) -> Seq<VarInt> {
    if args.len() == 0 {
        Seq::empty()
    } else {
        seq![VarInt((base + args.len() - 1) as i32)]
    }
}

/// The views of a list of nodes.
pub open spec fn node_views(nodes: Seq<Node>) -> Seq<NodeView> {
    Seq::new(nodes.len(), |i: int| nodes[i]@)
}

/// Appends the nodes of the arguments, each argument a child of the one
/// before it, and gives the index of the first argument's node (none when
/// there are no arguments).
fn process_arg(nodes: &mut Vec<Node>, arguments: Vec<Argument>) -> (r: Vec<VarInt>)
    ensures
        node_views(final(nodes)@) == node_views(old(nodes)@) + argument_chain(
            arguments@,
            old(nodes)@.len(),
        ),
        r@ == chain_head(arguments@, old(nodes)@.len()),
{
    let ghost base = nodes@.len();
    let ghost old_views = node_views(nodes@);
    let ghost args = arguments@;
    let k = arguments.len();
    let mut rest = arguments;
    let mut j: usize = 0;
    while j < k
        invariant
            j <= k == args.len(),
            base == old_views.len(),
            rest@ == args.subrange(0, k - j),
            node_views(nodes@) == old_views + argument_chain(args, base).take(j as int),
            nodes@.len() == base + j,
        decreases k - j,
    {
        let a = rest.pop().unwrap();
        let children = if j == 0 {
            Vec::new()
        } else {
            vec![VarInt(#[verifier::truncate] ((nodes.len() - 1) as i32))]
        };
        let node = Node { children, data: NodeData::Argument(a), is_executable: true, redirect_node: None };
        let ghost before = nodes@;
        proof {
            assert(a == args[k - 1 - j]);
            if j == 0 {
                assert(node.children@ =~= Seq::<VarInt>::empty());
            } else {
                assert(node.children@ =~= seq![VarInt((base + j - 1) as i32)]);
            }
            assert(node@ == argument_chain(args, base)[j as int]);
        }
        nodes.push(node);
        proof {
            assert(argument_chain(args, base).take(j + 1) =~= argument_chain(args, base).take(
                j as int,
            ).push(node@));
            assert(node_views(nodes@) =~= node_views(before).push(node@));
        }
        j = j + 1;
    }
    proof {
        assert(argument_chain(args, base).take(k as int) =~= argument_chain(args, base));
    }
    if k == 0 {
        Vec::new()
    } else {
        vec![VarInt(#[verifier::truncate] ((nodes.len() - 1) as i32))]
    }
}

/// The literal node of a command, with the node at `first` as its only
/// child.
pub open spec fn command_node(c: Command, first: int) -> NodeView {
    NodeView {
        children: seq![VarInt(first as i32)],
        data: NodeDataView::Literal(c.name@),
        is_executable: true,
        redirect_node: None,
    }
}

/// The nodes of the commands `cs`, before the root: for each command in
/// turn, the nodes of its arguments, then its literal node, whose child is
/// the node appended just before it.
pub open spec fn command_nodes(cs: Seq<Command>) -> Seq<NodeView>
    decreases cs.len(),
{
    if cs.len() == 0 {
        Seq::empty()
    } else {
        let prev = command_nodes(cs.drop_last());
        let with_args = prev + argument_chain(cs.last().arguments@, prev.len());
        with_args.push(command_node(cs.last(), with_args.len() - 1))
    }
}

/// The children of the root: the literal node of each command, in order.
pub open spec fn root_children(cs: Seq<Command>) -> Seq<VarInt> {
    Seq::new(cs.len(), |j: int| VarInt((command_nodes(cs.take(j + 1)).len() - 1) as i32))
}

/// The root node, last of the graph.
pub open spec fn root_node(cs: Seq<Command>) -> NodeView {
    NodeView {
        children: root_children(cs),
        data: NodeDataView::Root,
        is_executable: false,
        redirect_node: None,
    }
}

proof fn lemma_command_nodes_step(cs: Seq<Command>, j: int)
    requires
        0 <= j < cs.len(),
    ensures
        command_nodes(cs.take(j + 1)) == ({
            let prev = command_nodes(cs.take(j));
            let with_args = prev + argument_chain(cs[j].arguments@, prev.len());
            with_args.push(command_node(cs[j], with_args.len() - 1))
        }),
        root_children(cs.take(j + 1)) == root_children(cs.take(j)).push(
            VarInt((command_nodes(cs.take(j + 1)).len() - 1) as i32),
        ),
{
    assert(cs.take(j + 1).drop_last() =~= cs.take(j));
    assert forall|i: int| 0 <= i < j implies #[trigger] root_children(cs.take(j + 1))[i]
        == root_children(cs.take(j))[i] by {
        assert(cs.take(j + 1).take(i + 1) =~= cs.take(j).take(i + 1));
    }
    assert(cs.take(j + 1).take(j + 1) =~= cs.take(j + 1));
    assert(root_children(cs.take(j + 1)) =~= root_children(cs.take(j)).push(
        VarInt((command_nodes(cs.take(j + 1)).len() - 1) as i32),
    ));
}

/// The command graph of `commands`: for each command in turn, the nodes of
/// its arguments and then its literal node; the root comes last, with the
/// literal node of every command as its children. The first command must
/// have an argument, for its literal node to have a child.
pub fn commands_to_nodes(commands: Vec<Command>) -> (nodes: Vec<Node>)
    requires
        commands@.len() > 0 ==> commands@[0].arguments@.len() > 0,
    ensures
        node_views(nodes@) == command_nodes(commands@).push(root_node(commands@)),
{
    let ghost cs = commands@;
    let n = commands.len();
    let mut src = commands;
    let mut rev: Vec<Command> = Vec::new();
    while src.len() > 0
        invariant
            rev@.len() + src@.len() == n == cs.len(),
            src@ == cs.take(src@.len() as int),
            forall|i: int| 0 <= i < rev@.len() ==> rev@[i] == cs[n - 1 - i],
        decreases src@.len(),
    {
        let c = src.pop().unwrap();
        rev.push(c);
        proof {
            assert(src@ =~= cs.take(src@.len() as int));
        }
    }
    let mut nodes: Vec<Node> = Vec::new();
    let mut children: Vec<VarInt> = Vec::new();
    let mut j: usize = 0;
    proof {
        assert(cs.take(0) =~= Seq::<Command>::empty());
        assert(node_views(nodes@) =~= Seq::<NodeView>::empty());
        assert(root_children(cs.take(0)) =~= Seq::<VarInt>::empty());
    }
    while j < n
        invariant
            j <= n == cs.len(),
            rev@.len() == n - j,
            forall|i: int| 0 <= i < rev@.len() ==> rev@[i] == cs[n - 1 - i],
            node_views(nodes@) == command_nodes(cs.take(j as int)),
            children@ == root_children(cs.take(j as int)),
            cs.len() > 0 ==> cs[0].arguments@.len() > 0,
        decreases n - j,
    {
        let c = rev.pop().unwrap();
        let ghost prev = node_views(nodes@);
        let Command { name, arguments } = c;
        process_arg(&mut nodes, arguments);
        proof {
            lemma_command_nodes_step(cs, j as int);
            assert(c == cs[j as int]);
            assert(nodes@.len() == node_views(nodes@).len());
            if j > 0 {
                assert(prev.len() > 0);
            }
        }
        let first_arg_id = nodes.len() - 1;
        children.push(VarInt(#[verifier::truncate] (nodes.len() as i32)));
        let node = Node {
            children: vec![VarInt(#[verifier::truncate] (first_arg_id as i32))],
            data: NodeData::Literal(Literal { name }),
            is_executable: true,
            redirect_node: None,
        };
        let ghost with_args = nodes@;
        nodes.push(node);
        proof {
            assert(node.children@ =~= seq![VarInt(first_arg_id as i32)]);
            assert(node_views(nodes@) =~= node_views(with_args).push(node@));
        }
        j = j + 1;
    }
    let root = Node {
        children,
        data: NodeData::Root,
        is_executable: false,
        redirect_node: None,
    };
    let ghost before = nodes@;
    nodes.push(root);
    proof {
        assert(cs.take(n as int) =~= cs);
        assert(node_views(nodes@) =~= node_views(before).push(root@));
    }
    nodes
}

/// The command graph being built: its nodes, the root first.
pub struct CommandRegistry {
    pub graph: Vec<Node>,
}

/// A type whose command can be added to a registry.
pub trait AddToCommands {
    /// Appends the nodes of the command and gives the index of its first
    /// node; the nodes already in the registry stay as they are.
    fn add_to_commands(commands: &mut CommandRegistry) -> (id: VarInt)
        requires
            old(commands).graph@.len() > 0,
        ensures
            final(commands).graph@.len() >= old(commands).graph@.len(),
            node_views(final(commands).graph@).take(old(commands).graph@.len() as int)
                == node_views(old(commands).graph@),
    ;
}

impl AddToCommands for i32 {
    /// Appends one argument node, with an empty name and an integer parser
    /// without bounds, and gives its index.
    fn add_to_commands(commands: &mut CommandRegistry) -> (id: VarInt)
        ensures
            node_views(final(commands).graph@) == node_views(old(commands).graph@).push(
                NodeView {
                    children: Seq::empty(),
                    data: NodeDataView::Argument(
                        Seq::empty(),
                        crate::protocol::node::Parser::BrigadierInteger(
                            BrigadierInteger { min: None, max: None },
                        ),
                        None,
                    ),
                    is_executable: false,
                    redirect_node: None,
                },
            ),
            id == VarInt(old(commands).graph@.len() as i32),
    {
        let id = VarInt(#[verifier::truncate] (commands.graph.len() as i32));
        let node = Node {
            children: Vec::new(),
            data: NodeData::Argument(
                Argument {
                    name: String::new(),
                    parser: crate::protocol::node::Parser::BrigadierInteger(
                        BrigadierInteger { min: None, max: None },
                    ),
                    suggestions_type: None,
                },
            ),
            is_executable: false,
            redirect_node: None,
        };
        let ghost before = commands.graph@;
        commands.graph.push(node);
        proof {
            assert(node.children@ =~= Seq::<VarInt>::empty());
            assert(node_views(commands.graph@) =~= node_views(before).push(node@));
            assert(node_views(commands.graph@).take(before.len() as int) =~= node_views(before));
        }
        id
    }
}

impl CommandRegistry {
    /// A registry holding only the root node.
    pub fn new() -> (r: Self)
        ensures
            node_views(r.graph@) == seq![
                NodeView {
                    children: Seq::empty(),
                    data: NodeDataView::Root,
                    is_executable: false,
                    redirect_node: None,
                },
            ],
    {
        let root = Node {
            children: Vec::new(),
            data: NodeData::Root,
            is_executable: false,
            redirect_node: None,
        };
        let r = CommandRegistry { graph: vec![root] };
        proof {
            assert(root.children@ =~= Seq::<VarInt>::empty());
            assert(node_views(r.graph@) =~= seq![root@]);
        }
        r
    }

    /// Adds the command of `C` and makes its first node a child of the root,
    /// after the root's other children. The nodes that were there stay as
    /// they are, but for that child.
    pub fn register_command<C: AddToCommands>(&mut self)
        requires
            old(self).graph@.len() > 0,
        ensures
            final(self).graph@.len() >= old(self).graph@.len(),
            forall|i: int|
                0 < i < old(self).graph@.len() ==> #[trigger] final(self).graph@[i]@
                    == old(self).graph@[i]@,
            final(self).graph@[0]@.children.drop_last() == old(self).graph@[0]@.children,
            final(self).graph@[0]@.children.len() == old(self).graph@[0]@.children.len() + 1,
            final(self).graph@[0]@.data == old(self).graph@[0]@.data,
            final(self).graph@[0]@.is_executable == old(self).graph@[0]@.is_executable,
            final(self).graph@[0]@.redirect_node == old(self).graph@[0]@.redirect_node,
    {
        let ghost g0 = self.graph@;
        let id = C::add_to_commands(self);
        let ghost g1 = self.graph@;
        proof {
            assert forall|i: int| 0 <= i < g0.len() implies #[trigger] g1[i]@ == g0[i]@ by {
                assert(node_views(g1).take(g0.len() as int)[i] == node_views(g0)[i]);
            }
        }
        let mut root = self.graph.remove(0);
        let ghost r0 = root;
        root.children.push(id);
        self.graph.insert(0, root);
        proof {
            assert(r0 == g1[0]);
            assert(g1[0]@ == g0[0]@);
            assert(self.graph@[0] == root);
            assert(root.children@ == r0.children@.push(id));
            assert forall|i: int| 0 < i < g0.len() implies #[trigger] self.graph@[i]@ == g0[i]@ by {
                assert(self.graph@[i] == g1[i]);
            }
            assert(root.children@.drop_last() =~= r0.children@);
        }
    }
}

} // verus!
