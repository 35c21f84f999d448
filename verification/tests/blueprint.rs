use helios_recursion::blueprint::{
    byte_list, decimal, generate_recursion_circuit, generate_wrapper_circuit, replace_all,
};

#[test]
fn numbers_are_written_in_decimal() {
    for n in [0u64, 7, 10, 99, 100, 7606080, u64::MAX] {
        assert_eq!(decimal(n), n.to_string());
    }
}

#[test]
fn bytes_are_written_as_a_list() {
    assert_eq!(byte_list(&[]), "[]");
    assert_eq!(byte_list(&[5]), "[5]");
    assert_eq!(byte_list(&[173, 168, 203, 0]), "[173, 168, 203, 0]");
    let all: Vec<u8> = (0u8..=255).collect();
    assert_eq!(byte_list(&all), format!("{:?}", all));
}

#[test]
fn occurrences_are_replaced() {
    assert_eq!(replace_all("a-b-c", "-", "+"), "a+b+c");
    assert_eq!(replace_all("aaaaa", "aa", "b"), "bba");
    assert_eq!(replace_all("aé€a", "é€", "xx"), "axxa");
    assert_eq!(replace_all("none", "zz", "y"), "none");
    assert_eq!(replace_all("", "zz", "y"), "");
    assert_eq!(replace_all("ab", "ab", ""), "");
    assert_eq!(replace_all("aab", "ab", "aab"), "aaab");
}

#[test]
fn recursion_blueprint_is_filled() {
    let blueprint = "use a::{b, c};\n\
                     const HASH: [u8; 32] = { committee_hash };\n\
                     const HEAD: u64 = { trusted_head };\n\
                     pub fn main() {}\n";
    let source = generate_recursion_circuit(blueprint, &[173, 168, 203], 7606080);
    assert_eq!(
        source,
        "use a::{b, c};\n\
         const HASH: [u8; 32] = [173, 168, 203];\n\
         const HEAD: u64 = 7606080;\n\
         pub fn main() {}\n"
    );
}

#[test]
fn every_placeholder_is_filled() {
    let source = generate_recursion_circuit(
        "{ trusted_head }{ committee_hash }{ trusted_head }{{ trusted_head}",
        &[1, 2],
        9,
    );
    assert_eq!(source, "9[1, 2]9{{ trusted_head}");
}

#[test]
fn wrapper_blueprint_is_filled() {
    assert_eq!(
        generate_wrapper_circuit("const VK: &str = { recursive_vk };", "0x00ab"),
        "const VK: &str = \"0x00ab\";"
    );
}
