use vstd::prelude::*;

verus! {

/// The scene file to read: the second argument after the program's name,
/// or `scene.json` when there is none. `args` holds the program's name first.
pub fn get_scene_file(args: &Vec<String>) -> (r: String)
    ensures
        r@ == if args@.len() > 2 {
            args@[2]@
        } else {
            "scene.json"@
        },
{
    if args.len() > 2 {
        args[2].clone()
    } else {
        String::from_str("scene.json")
    }
}

/// The image file to write: the first argument after the program's name, or
/// `out.png` when there is none. `args` holds the program's name first.
pub fn get_out_file(args: &Vec<String>) -> (r: String)
    ensures
        r@ == if args@.len() > 1 {
            args@[1]@
        } else {
            "out.png"@
        },
{
    if args.len() > 1 {
        args[1].clone()
    } else {
        String::from_str("out.png")
    }
}

} // verus!
