use valence::command::{commands_to_nodes, AddToCommands, Command, CommandRegistry, ParserProperties};
use valence::protocol::node::{Argument, BrigadierInteger, Node, NodeData, Parser};
use valence::protocol::VarInt;

fn arg(name: &str, parser: Parser) -> Argument {
    Argument { name: name.to_string(), parser, suggestions_type: None }
}

fn children(n: &Node) -> Vec<i32> {
    n.children.iter().map(|v| v.0).collect()
}

fn arg_name(n: &Node) -> String {
    match &n.data {
        NodeData::Argument(a) => a.name.clone(),
        _ => panic!("expected an argument node"),
    }
}

fn literal_name(n: &Node) -> String {
    match &n.data {
        NodeData::Literal(l) => l.name.clone(),
        _ => panic!("expected a literal node"),
    }
}

#[test]
fn commands_become_a_graph() {
    let int = Parser::BrigadierInteger(BrigadierInteger { min: None, max: None });
    let commands = vec![
        Command {
            name: "tp".to_string(),
            arguments: vec![arg("a", Parser::BrigadierBool(false)), arg("b", int)],
        },
        Command { name: "kill".to_string(), arguments: vec![arg("c", int)] },
    ];
    let nodes = commands_to_nodes(commands);
    assert_eq!(nodes.len(), 6);
    // The arguments of a command come last first, each the child of the one before.
    assert_eq!(arg_name(&nodes[0]), "b");
    assert_eq!(children(&nodes[0]), Vec::<i32>::new());
    assert_eq!(arg_name(&nodes[1]), "a");
    assert_eq!(children(&nodes[1]), vec![0]);
    assert!(nodes[1].is_executable);
    assert_eq!(literal_name(&nodes[2]), "tp");
    assert_eq!(children(&nodes[2]), vec![1]);
    assert_eq!(arg_name(&nodes[3]), "c");
    assert_eq!(literal_name(&nodes[4]), "kill");
    assert_eq!(children(&nodes[4]), vec![3]);
    assert!(matches!(nodes[5].data, NodeData::Root));
    assert_eq!(children(&nodes[5]), vec![2, 4]);
    assert!(!nodes[5].is_executable);
    assert_eq!(nodes[5].redirect_node, None);
}

#[test]
fn no_commands_give_a_lone_root() {
    let nodes = commands_to_nodes(Vec::new());
    assert_eq!(nodes.len(), 1);
    assert!(matches!(nodes[0].data, NodeData::Root));
    assert!(nodes[0].children.is_empty());
}

#[test]
fn integer_arguments_have_no_bounds() {
    let p: BrigadierInteger = <i32 as ParserProperties<BrigadierInteger>>::properties();
    assert_eq!(p, BrigadierInteger { min: None, max: None });
}

#[test]
fn registering_an_integer_command() {
    let mut reg = CommandRegistry::new();
    assert_eq!(reg.graph.len(), 1);
    assert!(matches!(reg.graph[0].data, NodeData::Root));
    reg.register_command::<i32>();
    reg.register_command::<i32>();
    assert_eq!(reg.graph.len(), 3);
    assert_eq!(children(&reg.graph[0]), vec![1, 2]);
    match &reg.graph[1].data {
        NodeData::Argument(a) => {
            assert_eq!(a.name, "");
            assert_eq!(a.parser, Parser::BrigadierInteger(BrigadierInteger { min: None, max: None }));
            assert!(a.suggestions_type.is_none());
        }
        _ => panic!("expected an argument node"),
    }
    assert!(!reg.graph[1].is_executable);
    assert_eq!(<i32 as AddToCommands>::add_to_commands(&mut reg), VarInt(3));
}
