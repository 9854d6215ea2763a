//! Labels: the stable keys under which the parts of a document are known.
use vstd::prelude::*;
use vstd::string::StringExecFns;

verus! {

/// The character for a decimal digit.
pub open spec fn digit(d: nat) -> char {
    if d == 0 {
        '0'
    } else if d == 1 {
        '1'
    } else if d == 2 {
        '2'
    } else if d == 3 {
        '3'
    } else if d == 4 {
        '4'
    } else if d == 5 {
        '5'
    } else if d == 6 {
        '6'
    } else if d == 7 {
        '7'
    } else if d == 8 {
        '8'
    } else {
        '9'
    }
}

/// The number in decimal digits, without leading zeros.
pub open spec fn decimal(n: nat) -> Seq<char>
    decreases n,
{
    if n < 10 {
        seq![digit(n)]
    } else {
        decimal(n / 10).push(digit(n % 10))
    }
}

/// The text of a decimal digit.
fn digit_str(d: usize) -> (r: &'static str)
    requires
        d < 10,
    ensures
        r@ == seq![digit(d as nat)],
{
    proof {
        reveal_strlit("0");
        reveal_strlit("1");
        reveal_strlit("2");
        reveal_strlit("3");
        reveal_strlit("4");
        reveal_strlit("5");
        reveal_strlit("6");
        reveal_strlit("7");
        reveal_strlit("8");
        reveal_strlit("9");
    }
    let r = match d {
        0 => "0",
        1 => "1",
        2 => "2",
        3 => "3",
        4 => "4",
        5 => "5",
        6 => "6",
        7 => "7",
        8 => "8",
        _ => "9",
    };
    assert(r@ =~= seq![digit(d as nat)]);
    r
}

/// Appends the number in decimal digits.
pub fn append_decimal(text: &mut String, n: usize)
    ensures
        final(text)@ == old(text)@ + decimal(n as nat),
    decreases n,
{
    if n >= 10 {
        append_decimal(text, n / 10);
    }
    text.append(digit_str(n % 10));
    assert(final(text)@ =~= old(text)@ + decimal(n as nat));
}

/// `prefix` with the number behind it.
pub fn numbered(prefix: &str, n: usize) -> (r: String)
    ensures
        r@ == prefix@ + decimal(n as nat),
{
    let mut r = String::from_str(prefix);
    append_decimal(&mut r, n);
    r
}

/// Returns the label for the mesh.
pub fn mesh_label(mesh: usize) -> (r: String)
    ensures
        r@ == "Mesh"@ + decimal(mesh as nat),
{
    numbered("Mesh", mesh)
}

/// Returns the label for the primitive of the mesh.
pub fn primitive_label(mesh: usize, primitive: usize) -> (r: String)
    ensures
        r@ == "Mesh"@ + decimal(mesh as nat) + "/Primitive"@ + decimal(primitive as nat),
{
    let mut r = numbered("Mesh", mesh);
    r.append("/Primitive");
    append_decimal(&mut r, primitive);
    r
}

/// Returns the label for the material: the default material has no index.
pub fn material_label(material: Option<usize>) -> (r: String)
    ensures
        r@ == match material {
            Some(index) => "Material"@ + decimal(index as nat),
            None => "MaterialDefault"@,
        },
{
    match material {
        Some(index) => numbered("Material", index),
        None => String::from_str("MaterialDefault"),
    }
}

/// Returns the label for the texture.
pub fn texture_label(texture: usize) -> (r: String)
    ensures
        r@ == "Texture"@ + decimal(texture as nat),
{
    numbered("Texture", texture)
}

/// Returns the label for the node.
pub fn node_label(node: usize) -> (r: String)
    ensures
        r@ == "Node"@ + decimal(node as nat),
{
    numbered("Node", node)
}

/// Returns the label for the scene.
pub fn scene_label(scene: usize) -> (r: String)
    ensures
        r@ == "Scene"@ + decimal(scene as nat),
{
    numbered("Scene", scene)
}

/// Returns the label for the skin.
pub fn skin_label(skin: usize) -> (r: String)
    ensures
        r@ == "Skin"@ + decimal(skin as nat),
{
    numbered("Skin", skin)
}

/// Returns the label for the animation.
pub fn animation_label(animation: usize) -> (r: String)
    ensures
        r@ == "Animation"@ + decimal(animation as nat),
{
    numbered("Animation", animation)
}

/// The name of a node: the one that the document gives it, else one made of its
/// index.
pub open spec fn spec_node_name(name: Option<String>, index: usize) -> Seq<char> {
    match name {
        Some(name) => name@,
        None => "GltfNode"@ + decimal(index as nat),
    }
}

/// Returns the name of a node.
pub fn node_name(name: &Option<String>, index: usize) -> (r: String)
    ensures
        r@ == spec_node_name(*name, index),
{
    match name {
        Some(name) => name.clone(),
        None => numbered("GltfNode", index),
    }
}

} // verus!
