use pongi::hot_reload::{construct_paths, decimal_string, lib_name_to_file_name};

#[test]
fn library_and_copy_paths() {
    let (file_path, copy_path, copy_file_path) = construct_paths(3, "target/debug/", "game_lib", false);
    assert_eq!(file_path, "target/debug/libgame_lib.so");
    assert_eq!(copy_path, "target/debug/libcopies/");
    assert_eq!(copy_file_path, "target/debug/libcopies/libgame_lib3.so");
}

#[test]
fn numbers_are_written_in_decimal() {
    assert_eq!(decimal_string(0), "0");
    assert_eq!(decimal_string(7), "7");
    assert_eq!(decimal_string(10), "10");
    assert_eq!(decimal_string(1234567), "1234567");
    assert_eq!(decimal_string(usize::MAX), usize::MAX.to_string());
}

#[test]
fn shared_library_file_names() {
    assert_eq!(lib_name_to_file_name("game_lib", false), "libgame_lib.so");
    assert_eq!(lib_name_to_file_name("", false), "lib.so");
}

#[test]
fn each_reload_gets_its_own_copy() {
    let (_, _, copy9) = construct_paths(9, "target/debug/", "game_lib", false);
    let (_, _, copy10) = construct_paths(10, "target/debug/", "game_lib", false);
    let (_, _, copy1) = construct_paths(1, "target/debug/", "game_lib", false);
    assert_ne!(copy9, copy10);
    assert_ne!(copy1, copy10);
}

#[test]
fn windows_library_names() {
    assert_eq!(lib_name_to_file_name("game_lib", true), "game_lib.dll");
    let (file_path, copy_path, copy_file_path) = construct_paths(12, "target/debug/", "game_lib", true);
    assert_eq!(file_path, "target/debug/game_lib.dll");
    assert_eq!(copy_path, "target/debug/libcopies/");
    assert_eq!(copy_file_path, "target/debug/libcopies/game_lib12.dll");
}
