use assistant::dirs::get_config_file;
use std::path::{Path, PathBuf};

#[test]
fn config_file_lies_inside_the_directory() {
    let dir = Path::new("/home/pi/.config/raspberry");
    assert_eq!(get_config_file(dir, "pizza.rpw"), PathBuf::from("/home/pi/.config/raspberry/pizza.rpw"));
    assert_eq!(
        get_config_file(dir, "intents/model.onnx"),
        PathBuf::from("/home/pi/.config/raspberry/intents/model.onnx")
    );
}
