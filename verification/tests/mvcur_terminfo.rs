//! `Caps::from_terminfo` against the hand-built engine and captured moves, on compiled terminfo
//! entries embedded below.

use ncurses_native::{mvcur_caps, Caps, Terminfo};

const FIX_XTERM: &[u8] = &[26, 1, 48, 0, 38, 0, 15, 0, 157, 1, 16, 6, 120, 116, 101, 114, 109, 124, 120, 116, 101, 114, 109, 32, 116, 101, 114, 109, 105, 110, 97, 108, 32, 101, 109, 117, 108, 97, 116, 111, 114, 32, 40, 88, 32, 87, 105, 110, 100, 111, 119, 32, 83, 121, 115, 116, 101, 109, 41, 0, 0, 1, 0, 0, 1, 0, 0, 0, 1, 0, 0, 0, 0, 1, 1, 0, 0, 0, 0, 0, 0, 0, 1, 0, 0, 1, 0, 0, 1, 0, 0, 0, 0, 0, 0, 0, 0, 1, 80, 0, 8, 0, 24, 0, 255, 255, 255, 255, 255, 255, 255, 255, 255, 255, 255, 255, 255, 255, 255, 255, 255, 255, 255, 255, 8, 0, 64, 0, 0, 0, 4, 0, 6, 0, 8, 0, 25, 0, 30, 0, 38, 0, 42, 0, 46, 0, 255, 255, 57, 0, 74, 0, 76, 0, 80, 0, 87, 0, 255, 255, 89, 0, 102, 0, 255, 255, 106, 0, 110, 0, 120, 0, 124, 0, 255, 255, 255, 255, 128, 0, 132, 0, 137, 0, 142, 0, 255, 255, 160, 0, 165, 0, 170, 0, 255, 255, 175, 0, 180, 0, 185, 0, 190, 0, 199, 0, 203, 0, 210, 0, 255, 255, 228, 0, 233, 0, 239, 0, 245, 0, 255, 255, 255, 255, 255, 255, 7, 1, 255, 255, 255, 255, 255, 255, 25, 1, 255, 255, 29, 1, 255, 255, 255, 255, 255, 255, 31, 1, 255, 255, 36, 1, 255, 255, 255, 255, 255, 255, 255, 255, 40, 1, 44, 1, 50, 1, 54, 1, 58, 1, 62, 1, 68, 1, 74, 1, 80, 1, 86, 1, 92, 1, 96, 1, 255, 255, 101, 1, 255, 255, 105, 1, 110, 1, 115, 1, 119, 1, 126, 1, 255, 255, 133, 1, 137, 1, 145, 1, 255, 255, 255, 255, 255, 255, 255, 255, 255, 255, 255, 255, 255, 255, 255, 255, 255, 255, 255, 255, 255, 255, 153, 1, 162, 1, 171, 1, 255, 255, 174, 1, 183, 1, 192, 1, 201, 1, 210, 1, 219, 1, 228, 1, 237, 1, 246, 1, 255, 1, 255, 255, 255, 255, 255, 255, 8, 2, 12, 2, 17, 2, 22, 2, 42, 2, 45, 2, 255, 255, 255, 255, 63, 2, 66, 2, 77, 2, 80, 2, 82, 2, 85, 2, 178, 2, 255, 255, 181, 2, 255, 255, 255, 255, 255, 255, 255, 255, 183, 2, 187, 2, 191, 2, 195, 2, 199, 2, 255, 255, 255, 255, 203, 2, 255, 255, 0, 3, 255, 255, 255, 255, 4, 3, 10, 3, 255, 255, 255, 255, 255, 255, 255, 255, 255, 255, 16, 3, 255, 255, 255, 255, 255, 255, 255, 255, 255, 255, 20, 3, 24, 3, 255, 255, 255, 255, 255, 255, 255, 255, 255, 255, 255, 255, 255, 255, 255, 255, 255, 255, 255, 255, 255, 255, 255, 255, 255, 255, 255, 255, 255, 255, 255, 255, 255, 255, 255, 255, 255, 255, 255, 255, 255, 255, 255, 255, 255, 255, 255, 255, 255, 255, 28, 3, 255, 255, 255, 255, 35, 3, 255, 255, 255, 255, 255, 255, 255, 255, 42, 3, 49, 3, 56, 3, 255, 255, 255, 255, 63, 3, 255, 255, 70, 3, 255, 255, 255, 255, 255, 255, 77, 3, 255, 255, 255, 255, 255, 255, 255, 255, 255, 255, 84, 3, 90, 3, 96, 3, 103, 3, 110, 3, 117, 3, 124, 3, 132, 3, 140, 3, 148, 3, 156, 3, 164, 3, 172, 3, 180, 3, 188, 3, 195, 3, 202, 3, 209, 3, 216, 3, 224, 3, 232, 3, 240, 3, 248, 3, 0, 4, 8, 4, 16, 4, 24, 4, 31, 4, 38, 4, 45, 4, 52, 4, 60, 4, 68, 4, 76, 4, 84, 4, 92, 4, 100, 4, 108, 4, 116, 4, 123, 4, 130, 4, 137, 4, 144, 4, 152, 4, 160, 4, 168, 4, 176, 4, 184, 4, 192, 4, 200, 4, 208, 4, 215, 4, 222, 4, 229, 4, 234, 4, 255, 255, 255, 255, 255, 255, 255, 255, 255, 255, 255, 255, 255, 255, 255, 255, 255, 255, 255, 255, 255, 255, 255, 255, 255, 255, 255, 255, 255, 255, 255, 255, 255, 255, 255, 255, 255, 255, 255, 255, 255, 255, 255, 255, 241, 4, 252, 4, 1, 5, 20, 5, 24, 5, 255, 255, 255, 255, 255, 255, 255, 255, 33, 5, 103, 5, 255, 255, 255, 255, 255, 255, 255, 255, 255, 255, 255, 255, 255, 255, 173, 5, 255, 255, 255, 255, 255, 255, 255, 255, 255, 255, 255, 255, 255, 255, 255, 255, 255, 255, 178, 5, 255, 255, 255, 255, 255, 255, 255, 255, 255, 255, 255, 255, 255, 255, 255, 255, 255, 255, 255, 255, 255, 255, 255, 255, 255, 255, 255, 255, 255, 255, 255, 255, 255, 255, 255, 255, 255, 255, 255, 255, 184, 5, 201, 5, 255, 255, 255, 255, 255, 255, 255, 255, 255, 255, 255, 255, 255, 255, 255, 255, 255, 255, 255, 255, 255, 255, 219, 5, 255, 255, 255, 255, 255, 255, 223, 5, 233, 5, 255, 255, 255, 255, 255, 255, 255, 255, 255, 255, 255, 255, 255, 255, 243, 5, 255, 255, 255, 255, 255, 255, 255, 255, 255, 255, 255, 255, 255, 255, 255, 255, 255, 255, 255, 255, 255, 255, 255, 255, 255, 255, 255, 255, 255, 255, 255, 255, 255, 255, 255, 255, 255, 255, 255, 255, 255, 255, 255, 255, 255, 255, 255, 255, 255, 255, 255, 255, 255, 255, 255, 255, 255, 255, 255, 255, 255, 255, 255, 255, 255, 255, 255, 255, 255, 255, 255, 255, 255, 255, 255, 255, 255, 255, 255, 255, 255, 255, 255, 255, 10, 6, 13, 6, 27, 91, 90, 0, 7, 0, 13, 0, 27, 91, 37, 105, 37, 112, 49, 37, 100, 59, 37, 112, 50, 37, 100, 114, 0, 27, 91, 51, 103, 0, 27, 91, 72, 27, 91, 50, 74, 0, 27, 91, 75, 0, 27, 91, 74, 0, 27, 91, 37, 105, 37, 112, 49, 37, 100, 71, 0, 27, 91, 37, 105, 37, 112, 49, 37, 100, 59, 37, 112, 50, 37, 100, 72, 0, 10, 0, 27, 91, 72, 0, 27, 91, 63, 50, 53, 108, 0, 8, 0, 27, 91, 63, 49, 50, 108, 27, 91, 63, 50, 53, 104, 0, 27, 91, 67, 0, 27, 91, 65, 0, 27, 91, 63, 49, 50, 59, 50, 53, 104, 0, 27, 91, 80, 0, 27, 91, 77, 0, 27, 40, 48, 0, 27, 91, 53, 109, 0, 27, 91, 49, 109, 0, 27, 91, 63, 49, 48, 52, 57, 104, 27, 91, 50, 50, 59, 48, 59, 48, 116, 0, 27, 91, 50, 109, 0, 27, 91, 52, 104, 0, 27, 91, 56, 109, 0, 27, 91, 55, 109, 0, 27, 91, 55, 109, 0, 27, 91, 52, 109, 0, 27, 91, 37, 112, 49, 37, 100, 88, 0, 27, 40, 66, 0, 27, 40, 66, 27, 91, 109, 0, 27, 91, 63, 49, 48, 52, 57, 108, 27, 91, 50, 51, 59, 48, 59, 48, 116, 0, 27, 91, 52, 108, 0, 27, 91, 50, 55, 109, 0, 27, 91, 50, 52, 109, 0, 27, 91, 63, 53, 104, 36, 60, 49, 48, 48, 47, 62, 27, 91, 63, 53, 108, 0, 27, 91, 33, 112, 27, 91, 63, 51, 59, 52, 108, 27, 91, 52, 108, 27, 62, 0, 27, 91, 76, 0, 127, 0, 27, 91, 51, 126, 0, 27, 79, 66, 0, 27, 79, 80, 0, 27, 91, 50, 49, 126, 0, 27, 79, 81, 0, 27, 79, 82, 0, 27, 79, 83, 0, 27, 91, 49, 53, 126, 0, 27, 91, 49, 55, 126, 0, 27, 91, 49, 56, 126, 0, 27, 91, 49, 57, 126, 0, 27, 91, 50, 48, 126, 0, 27, 79, 72, 0, 27, 91, 50, 126, 0, 27, 79, 68, 0, 27, 91, 54, 126, 0, 27, 91, 53, 126, 0, 27, 79, 67, 0, 27, 91, 49, 59, 50, 66, 0, 27, 91, 49, 59, 50, 65, 0, 27, 79, 65, 0, 27, 91, 63, 49, 108, 27, 62, 0, 27, 91, 63, 49, 104, 27, 61, 0, 27, 91, 63, 49, 48, 51, 52, 108, 0, 27, 91, 63, 49, 48, 51, 52, 104, 0, 27, 69, 0, 27, 91, 37, 112, 49, 37, 100, 80, 0, 27, 91, 37, 112, 49, 37, 100, 77, 0, 27, 91, 37, 112, 49, 37, 100, 66, 0, 27, 91, 37, 112, 49, 37, 100, 64, 0, 27, 91, 37, 112, 49, 37, 100, 83, 0, 27, 91, 37, 112, 49, 37, 100, 76, 0, 27, 91, 37, 112, 49, 37, 100, 68, 0, 27, 91, 37, 112, 49, 37, 100, 67, 0, 27, 91, 37, 112, 49, 37, 100, 84, 0, 27, 91, 37, 112, 49, 37, 100, 65, 0, 27, 91, 105, 0, 27, 91, 52, 105, 0, 27, 91, 53, 105, 0, 37, 112, 49, 37, 99, 27, 91, 37, 112, 50, 37, 123, 49, 125, 37, 45, 37, 100, 98, 0, 27, 99, 0, 27, 91, 33, 112, 27, 91, 63, 51, 59, 52, 108, 27, 91, 52, 108, 27, 62, 0, 27, 56, 0, 27, 91, 37, 105, 37, 112, 49, 37, 100, 100, 0, 27, 55, 0, 10, 0, 27, 77, 0, 37, 63, 37, 112, 57, 37, 116, 27, 40, 48, 37, 101, 27, 40, 66, 37, 59, 27, 91, 48, 37, 63, 37, 112, 54, 37, 116, 59, 49, 37, 59, 37, 63, 37, 112, 53, 37, 116, 59, 50, 37, 59, 37, 63, 37, 112, 50, 37, 116, 59, 52, 37, 59, 37, 63, 37, 112, 49, 37, 112, 51, 37, 124, 37, 116, 59, 55, 37, 59, 37, 63, 37, 112, 52, 37, 116, 59, 53, 37, 59, 37, 63, 37, 112, 55, 37, 116, 59, 56, 37, 59, 109, 0, 27, 72, 0, 9, 0, 27, 79, 119, 0, 27, 79, 121, 0, 27, 79, 117, 0, 27, 79, 113, 0, 27, 79, 115, 0, 96, 96, 97, 97, 102, 102, 103, 103, 105, 105, 106, 106, 107, 107, 108, 108, 109, 109, 110, 110, 111, 111, 112, 112, 113, 113, 114, 114, 115, 115, 116, 116, 117, 117, 118, 118, 119, 119, 120, 120, 121, 121, 122, 122, 123, 123, 124, 124, 125, 125, 126, 126, 0, 27, 91, 90, 0, 27, 91, 63, 55, 104, 0, 27, 91, 63, 55, 108, 0, 27, 79, 69, 0, 27, 79, 70, 0, 27, 79, 77, 0, 27, 91, 51, 59, 50, 126, 0, 27, 91, 49, 59, 50, 70, 0, 27, 91, 49, 59, 50, 72, 0, 27, 91, 50, 59, 50, 126, 0, 27, 91, 49, 59, 50, 68, 0, 27, 91, 54, 59, 50, 126, 0, 27, 91, 53, 59, 50, 126, 0, 27, 91, 49, 59, 50, 67, 0, 27, 91, 50, 51, 126, 0, 27, 91, 50, 52, 126, 0, 27, 91, 49, 59, 50, 80, 0, 27, 91, 49, 59, 50, 81, 0, 27, 91, 49, 59, 50, 82, 0, 27, 91, 49, 59, 50, 83, 0, 27, 91, 49, 53, 59, 50, 126, 0, 27, 91, 49, 55, 59, 50, 126, 0, 27, 91, 49, 56, 59, 50, 126, 0, 27, 91, 49, 57, 59, 50, 126, 0, 27, 91, 50, 48, 59, 50, 126, 0, 27, 91, 50, 49, 59, 50, 126, 0, 27, 91, 50, 51, 59, 50, 126, 0, 27, 91, 50, 52, 59, 50, 126, 0, 27, 91, 49, 59, 53, 80, 0, 27, 91, 49, 59, 53, 81, 0, 27, 91, 49, 59, 53, 82, 0, 27, 91, 49, 59, 53, 83, 0, 27, 91, 49, 53, 59, 53, 126, 0, 27, 91, 49, 55, 59, 53, 126, 0, 27, 91, 49, 56, 59, 53, 126, 0, 27, 91, 49, 57, 59, 53, 126, 0, 27, 91, 50, 48, 59, 53, 126, 0, 27, 91, 50, 49, 59, 53, 126, 0, 27, 91, 50, 51, 59, 53, 126, 0, 27, 91, 50, 52, 59, 53, 126, 0, 27, 91, 49, 59, 54, 80, 0, 27, 91, 49, 59, 54, 81, 0, 27, 91, 49, 59, 54, 82, 0, 27, 91, 49, 59, 54, 83, 0, 27, 91, 49, 53, 59, 54, 126, 0, 27, 91, 49, 55, 59, 54, 126, 0, 27, 91, 49, 56, 59, 54, 126, 0, 27, 91, 49, 57, 59, 54, 126, 0, 27, 91, 50, 48, 59, 54, 126, 0, 27, 91, 50, 49, 59, 54, 126, 0, 27, 91, 50, 51, 59, 54, 126, 0, 27, 91, 50, 52, 59, 54, 126, 0, 27, 91, 49, 59, 51, 80, 0, 27, 91, 49, 59, 51, 81, 0, 27, 91, 49, 59, 51, 82, 0, 27, 91, 49, 59, 51, 83, 0, 27, 91, 49, 53, 59, 51, 126, 0, 27, 91, 49, 55, 59, 51, 126, 0, 27, 91, 49, 56, 59, 51, 126, 0, 27, 91, 49, 57, 59, 51, 126, 0, 27, 91, 50, 48, 59, 51, 126, 0, 27, 91, 50, 49, 59, 51, 126, 0, 27, 91, 50, 51, 59, 51, 126, 0, 27, 91, 50, 52, 59, 51, 126, 0, 27, 91, 49, 59, 52, 80, 0, 27, 91, 49, 59, 52, 81, 0, 27, 91, 49, 59, 52, 82, 0, 27, 91, 49, 75, 0, 27, 91, 63, 54, 57, 108, 0, 27, 91, 37, 105, 37, 100, 59, 37, 100, 82, 0, 27, 91, 54, 110, 0, 27, 91, 63, 37, 91, 59, 48, 49, 50, 51, 52, 53, 54, 55, 56, 57, 93, 99, 0, 27, 91, 99, 0, 27, 91, 51, 57, 59, 52, 57, 109, 0, 27, 91, 51, 37, 63, 37, 112, 49, 37, 123, 49, 125, 37, 61, 37, 116, 52, 37, 101, 37, 112, 49, 37, 123, 51, 125, 37, 61, 37, 116, 54, 37, 101, 37, 112, 49, 37, 123, 52, 125, 37, 61, 37, 116, 49, 37, 101, 37, 112, 49, 37, 123, 54, 125, 37, 61, 37, 116, 51, 37, 101, 37, 112, 49, 37, 100, 37, 59, 109, 0, 27, 91, 52, 37, 63, 37, 112, 49, 37, 123, 49, 125, 37, 61, 37, 116, 52, 37, 101, 37, 112, 49, 37, 123, 51, 125, 37, 61, 37, 116, 54, 37, 101, 37, 112, 49, 37, 123, 52, 125, 37, 61, 37, 116, 49, 37, 101, 37, 112, 49, 37, 123, 54, 125, 37, 61, 37, 116, 51, 37, 101, 37, 112, 49, 37, 100, 37, 59, 109, 0, 27, 91, 51, 109, 0, 27, 91, 50, 51, 109, 0, 27, 91, 63, 54, 57, 104, 27, 91, 37, 105, 37, 112, 49, 37, 100, 115, 0, 27, 91, 63, 54, 57, 104, 27, 91, 37, 105, 59, 37, 112, 49, 37, 100, 115, 0, 27, 91, 60, 0, 27, 91, 51, 37, 112, 49, 37, 100, 109, 0, 27, 91, 52, 37, 112, 49, 37, 100, 109, 0, 27, 91, 63, 54, 57, 104, 27, 91, 37, 105, 37, 112, 49, 37, 100, 59, 37, 112, 50, 37, 100, 115, 0, 27, 108, 0, 27, 109, 0, 3, 0, 0, 0, 86, 0, 175, 0, 83, 4, 1, 1, 1, 0, 0, 0, 9, 0, 18, 0, 25, 0, 37, 0, 42, 0, 60, 0, 67, 0, 74, 0, 79, 0, 85, 0, 95, 0, 127, 0, 133, 0, 142, 0, 151, 0, 158, 0, 165, 0, 172, 0, 179, 0, 186, 0, 193, 0, 200, 0, 207, 0, 214, 0, 221, 0, 228, 0, 235, 0, 242, 0, 249, 0, 0, 1, 7, 1, 14, 1, 21, 1, 28, 1, 35, 1, 42, 1, 49, 1, 56, 1, 63, 1, 70, 1, 77, 1, 84, 1, 91, 1, 98, 1, 105, 1, 112, 1, 119, 1, 126, 1, 133, 1, 140, 1, 147, 1, 154, 1, 161, 1, 168, 1, 175, 1, 182, 1, 189, 1, 196, 1, 203, 1, 210, 1, 217, 1, 224, 1, 231, 1, 238, 1, 245, 1, 252, 1, 3, 2, 7, 2, 11, 2, 15, 2, 19, 2, 23, 2, 27, 2, 31, 2, 35, 2, 39, 2, 43, 2, 47, 2, 51, 2, 55, 2, 59, 2, 65, 2, 90, 2, 95, 2, 132, 2, 0, 0, 3, 0, 6, 0, 9, 0, 12, 0, 15, 0, 18, 0, 21, 0, 24, 0, 27, 0, 30, 0, 33, 0, 36, 0, 39, 0, 42, 0, 45, 0, 48, 0, 51, 0, 54, 0, 59, 0, 64, 0, 69, 0, 74, 0, 79, 0, 83, 0, 88, 0, 93, 0, 98, 0, 103, 0, 108, 0, 114, 0, 120, 0, 126, 0, 132, 0, 138, 0, 144, 0, 150, 0, 156, 0, 162, 0, 168, 0, 173, 0, 178, 0, 183, 0, 188, 0, 193, 0, 199, 0, 205, 0, 211, 0, 217, 0, 223, 0, 229, 0, 235, 0, 241, 0, 247, 0, 253, 0, 3, 1, 9, 1, 15, 1, 21, 1, 27, 1, 33, 1, 39, 1, 45, 1, 51, 1, 57, 1, 61, 1, 66, 1, 71, 1, 76, 1, 81, 1, 86, 1, 90, 1, 94, 1, 98, 1, 102, 1, 106, 1, 112, 1, 118, 1, 124, 1, 130, 1, 136, 1, 142, 1, 148, 1, 153, 1, 159, 1, 164, 1, 167, 1, 172, 1, 175, 1, 27, 91, 63, 50, 48, 48, 52, 108, 0, 27, 91, 63, 50, 48, 48, 52, 104, 0, 27, 93, 49, 49, 50, 7, 0, 27, 93, 49, 50, 59, 37, 112, 49, 37, 115, 7, 0, 27, 91, 51, 74, 0, 27, 93, 53, 50, 59, 37, 112, 49, 37, 115, 59, 37, 112, 50, 37, 115, 7, 0, 27, 91, 50, 48, 49, 126, 0, 27, 91, 50, 48, 48, 126, 0, 27, 91, 62, 99, 0, 27, 91, 50, 32, 113, 0, 27, 91, 37, 112, 49, 37, 100, 32, 113, 0, 27, 91, 63, 49, 48, 48, 54, 59, 49, 48, 48, 48, 37, 63, 37, 112, 49, 37, 123, 49, 125, 37, 61, 37, 116, 104, 37, 101, 108, 37, 59, 0, 27, 91, 62, 48, 113, 0, 27, 91, 63, 49, 48, 48, 52, 108, 0, 27, 91, 63, 49, 48, 48, 52, 104, 0, 27, 91, 51, 59, 51, 126, 0, 27, 91, 51, 59, 52, 126, 0, 27, 91, 51, 59, 53, 126, 0, 27, 91, 51, 59, 54, 126, 0, 27, 91, 51, 59, 55, 126, 0, 27, 91, 49, 59, 50, 66, 0, 27, 91, 49, 59, 51, 66, 0, 27, 91, 49, 59, 52, 66, 0, 27, 91, 49, 59, 53, 66, 0, 27, 91, 49, 59, 54, 66, 0, 27, 91, 49, 59, 55, 66, 0, 27, 91, 49, 59, 51, 70, 0, 27, 91, 49, 59, 52, 70, 0, 27, 91, 49, 59, 53, 70, 0, 27, 91, 49, 59, 54, 70, 0, 27, 91, 49, 59, 55, 70, 0, 27, 91, 49, 59, 51, 72, 0, 27, 91, 49, 59, 52, 72, 0, 27, 91, 49, 59, 53, 72, 0, 27, 91, 49, 59, 54, 72, 0, 27, 91, 49, 59, 55, 72, 0, 27, 91, 50, 59, 51, 126, 0, 27, 91, 50, 59, 52, 126, 0, 27, 91, 50, 59, 53, 126, 0, 27, 91, 50, 59, 54, 126, 0, 27, 91, 50, 59, 55, 126, 0, 27, 91, 49, 59, 51, 68, 0, 27, 91, 49, 59, 52, 68, 0, 27, 91, 49, 59, 53, 68, 0, 27, 91, 49, 59, 54, 68, 0, 27, 91, 49, 59, 55, 68, 0, 27, 91, 54, 59, 51, 126, 0, 27, 91, 54, 59, 52, 126, 0, 27, 91, 54, 59, 53, 126, 0, 27, 91, 54, 59, 54, 126, 0, 27, 91, 54, 59, 55, 126, 0, 27, 91, 53, 59, 51, 126, 0, 27, 91, 53, 59, 52, 126, 0, 27, 91, 53, 59, 53, 126, 0, 27, 91, 53, 59, 54, 126, 0, 27, 91, 53, 59, 55, 126, 0, 27, 91, 49, 59, 51, 67, 0, 27, 91, 49, 59, 52, 67, 0, 27, 91, 49, 59, 53, 67, 0, 27, 91, 49, 59, 54, 67, 0, 27, 91, 49, 59, 55, 67, 0, 27, 91, 49, 59, 50, 65, 0, 27, 91, 49, 59, 51, 65, 0, 27, 91, 49, 59, 52, 65, 0, 27, 91, 49, 59, 53, 65, 0, 27, 91, 49, 59, 54, 65, 0, 27, 91, 49, 59, 55, 65, 0, 27, 79, 120, 0, 27, 79, 116, 0, 27, 79, 118, 0, 27, 79, 114, 0, 27, 79, 69, 0, 27, 79, 107, 0, 27, 79, 108, 0, 27, 79, 111, 0, 27, 79, 110, 0, 27, 79, 106, 0, 27, 79, 109, 0, 27, 79, 112, 0, 27, 91, 73, 0, 27, 91, 79, 0, 27, 91, 50, 57, 109, 0, 27, 92, 91, 52, 49, 59, 91, 49, 45, 54, 93, 91, 48, 45, 57, 93, 91, 48, 45, 57, 93, 59, 48, 99, 0, 27, 91, 57, 109, 0, 27, 91, 60, 37, 105, 37, 112, 51, 37, 100, 59, 37, 112, 49, 37, 100, 59, 37, 112, 50, 37, 100, 59, 37, 63, 37, 112, 52, 37, 116, 77, 37, 101, 109, 37, 59, 0, 27, 80, 62, 92, 124, 88, 84, 101, 114, 109, 92, 40, 91, 49, 45, 57, 93, 91, 48, 45, 57, 93, 43, 92, 41, 27, 92, 92, 0, 65, 88, 0, 88, 70, 0, 88, 84, 0, 66, 68, 0, 66, 69, 0, 67, 114, 0, 67, 115, 0, 69, 51, 0, 77, 115, 0, 80, 69, 0, 80, 83, 0, 82, 86, 0, 83, 101, 0, 83, 115, 0, 88, 77, 0, 88, 82, 0, 102, 100, 0, 102, 101, 0, 107, 68, 67, 51, 0, 107, 68, 67, 52, 0, 107, 68, 67, 53, 0, 107, 68, 67, 54, 0, 107, 68, 67, 55, 0, 107, 68, 78, 0, 107, 68, 78, 51, 0, 107, 68, 78, 52, 0, 107, 68, 78, 53, 0, 107, 68, 78, 54, 0, 107, 68, 78, 55, 0, 107, 69, 78, 68, 51, 0, 107, 69, 78, 68, 52, 0, 107, 69, 78, 68, 53, 0, 107, 69, 78, 68, 54, 0, 107, 69, 78, 68, 55, 0, 107, 72, 79, 77, 51, 0, 107, 72, 79, 77, 52, 0, 107, 72, 79, 77, 53, 0, 107, 72, 79, 77, 54, 0, 107, 72, 79, 77, 55, 0, 107, 73, 67, 51, 0, 107, 73, 67, 52, 0, 107, 73, 67, 53, 0, 107, 73, 67, 54, 0, 107, 73, 67, 55, 0, 107, 76, 70, 84, 51, 0, 107, 76, 70, 84, 52, 0, 107, 76, 70, 84, 53, 0, 107, 76, 70, 84, 54, 0, 107, 76, 70, 84, 55, 0, 107, 78, 88, 84, 51, 0, 107, 78, 88, 84, 52, 0, 107, 78, 88, 84, 53, 0, 107, 78, 88, 84, 54, 0, 107, 78, 88, 84, 55, 0, 107, 80, 82, 86, 51, 0, 107, 80, 82, 86, 52, 0, 107, 80, 82, 86, 53, 0, 107, 80, 82, 86, 54, 0, 107, 80, 82, 86, 55, 0, 107, 82, 73, 84, 51, 0, 107, 82, 73, 84, 52, 0, 107, 82, 73, 84, 53, 0, 107, 82, 73, 84, 54, 0, 107, 82, 73, 84, 55, 0, 107, 85, 80, 0, 107, 85, 80, 51, 0, 107, 85, 80, 52, 0, 107, 85, 80, 53, 0, 107, 85, 80, 54, 0, 107, 85, 80, 55, 0, 107, 97, 50, 0, 107, 98, 49, 0, 107, 98, 51, 0, 107, 99, 50, 0, 107, 112, 53, 0, 107, 112, 65, 68, 68, 0, 107, 112, 67, 77, 65, 0, 107, 112, 68, 73, 86, 0, 107, 112, 68, 79, 84, 0, 107, 112, 77, 85, 76, 0, 107, 112, 83, 85, 66, 0, 107, 112, 90, 82, 79, 0, 107, 120, 73, 78, 0, 107, 120, 79, 85, 84, 0, 114, 109, 120, 120, 0, 114, 118, 0, 115, 109, 120, 120, 0, 120, 109, 0, 120, 114, 0];

const FIX_LINUX: &[u8] = &[26, 1, 20, 0, 29, 0, 16, 0, 125, 1, 66, 3, 108, 105, 110, 117, 120, 124, 76, 105, 110, 117, 120, 32, 99, 111, 110, 115, 111, 108, 101, 0, 0, 1, 0, 0, 1, 1, 0, 0, 0, 0, 0, 0, 0, 1, 1, 0, 0, 0, 0, 0, 1, 0, 0, 0, 0, 0, 0, 1, 1, 0, 255, 255, 8, 0, 255, 255, 255, 255, 255, 255, 255, 255, 255, 255, 255, 255, 255, 255, 255, 255, 255, 255, 255, 255, 255, 255, 8, 0, 64, 0, 18, 0, 255, 255, 0, 0, 2, 0, 4, 0, 21, 0, 26, 0, 33, 0, 37, 0, 41, 0, 255, 255, 52, 0, 69, 0, 71, 0, 75, 0, 87, 0, 255, 255, 89, 0, 101, 0, 255, 255, 105, 0, 109, 0, 121, 0, 125, 0, 255, 255, 255, 255, 129, 0, 131, 0, 136, 0, 255, 255, 255, 255, 141, 0, 146, 0, 255, 255, 255, 255, 151, 0, 156, 0, 161, 0, 166, 0, 175, 0, 177, 0, 255, 255, 255, 255, 182, 0, 187, 0, 193, 0, 199, 0, 255, 255, 255, 255, 255, 255, 255, 255, 255, 255, 255, 255, 217, 0, 221, 0, 255, 255, 225, 0, 255, 255, 255, 255, 255, 255, 227, 0, 255, 255, 232, 0, 255, 255, 255, 255, 255, 255, 255, 255, 236, 0, 241, 0, 247, 0, 252, 0, 1, 1, 6, 1, 11, 1, 17, 1, 23, 1, 29, 1, 35, 1, 40, 1, 255, 255, 45, 1, 255, 255, 49, 1, 54, 1, 59, 1, 255, 255, 255, 255, 255, 255, 63, 1, 255, 255, 255, 255, 255, 255, 255, 255, 255, 255, 255, 255, 255, 255, 255, 255, 255, 255, 255, 255, 255, 255, 255, 255, 255, 255, 255, 255, 255, 255, 67, 1, 255, 255, 70, 1, 79, 1, 88, 1, 97, 1, 255, 255, 106, 1, 115, 1, 124, 1, 255, 255, 133, 1, 255, 255, 255, 255, 255, 255, 255, 255, 255, 255, 255, 255, 255, 255, 142, 1, 255, 255, 255, 255, 255, 255, 148, 1, 151, 1, 162, 1, 165, 1, 167, 1, 170, 1, 1, 2, 255, 255, 4, 2, 255, 255, 255, 255, 255, 255, 255, 255, 255, 255, 255, 255, 6, 2, 255, 255, 255, 255, 255, 255, 255, 255, 10, 2, 255, 255, 75, 2, 255, 255, 255, 255, 78, 2, 84, 2, 255, 255, 255, 255, 90, 2, 255, 255, 255, 255, 255, 255, 255, 255, 255, 255, 255, 255, 255, 255, 255, 255, 94, 2, 255, 255, 255, 255, 255, 255, 255, 255, 255, 255, 255, 255, 255, 255, 255, 255, 255, 255, 255, 255, 255, 255, 255, 255, 255, 255, 255, 255, 255, 255, 255, 255, 255, 255, 255, 255, 255, 255, 99, 2, 255, 255, 255, 255, 255, 255, 255, 255, 255, 255, 255, 255, 255, 255, 255, 255, 255, 255, 255, 255, 255, 255, 255, 255, 255, 255, 255, 255, 255, 255, 255, 255, 255, 255, 255, 255, 255, 255, 255, 255, 255, 255, 255, 255, 255, 255, 255, 255, 255, 255, 255, 255, 255, 255, 255, 255, 255, 255, 255, 255, 255, 255, 101, 2, 107, 2, 113, 2, 119, 2, 125, 2, 131, 2, 137, 2, 143, 2, 149, 2, 155, 2, 255, 255, 255, 255, 255, 255, 255, 255, 255, 255, 255, 255, 255, 255, 255, 255, 255, 255, 255, 255, 255, 255, 255, 255, 255, 255, 255, 255, 255, 255, 255, 255, 255, 255, 255, 255, 255, 255, 255, 255, 255, 255, 255, 255, 255, 255, 255, 255, 255, 255, 255, 255, 255, 255, 255, 255, 255, 255, 255, 255, 255, 255, 255, 255, 255, 255, 255, 255, 255, 255, 255, 255, 255, 255, 255, 255, 255, 255, 255, 255, 255, 255, 255, 255, 255, 255, 161, 2, 255, 255, 255, 255, 255, 255, 255, 255, 255, 255, 255, 255, 255, 255, 255, 255, 255, 255, 255, 255, 255, 255, 255, 255, 255, 255, 255, 255, 255, 255, 255, 255, 255, 255, 255, 255, 255, 255, 255, 255, 255, 255, 255, 255, 255, 255, 166, 2, 177, 2, 182, 2, 188, 2, 192, 2, 201, 2, 205, 2, 255, 255, 255, 255, 255, 255, 255, 255, 255, 255, 255, 255, 255, 255, 255, 255, 255, 255, 255, 255, 255, 255, 255, 255, 255, 255, 255, 255, 255, 255, 255, 255, 255, 255, 255, 255, 255, 255, 255, 255, 255, 255, 255, 255, 255, 255, 255, 255, 255, 255, 255, 255, 255, 255, 255, 255, 255, 255, 255, 255, 255, 255, 255, 255, 255, 255, 255, 255, 255, 255, 255, 255, 255, 255, 255, 255, 255, 255, 255, 255, 255, 255, 255, 255, 255, 255, 255, 255, 255, 255, 255, 255, 255, 255, 255, 255, 255, 255, 255, 255, 255, 255, 255, 255, 255, 255, 255, 255, 255, 255, 30, 3, 255, 255, 255, 255, 255, 255, 34, 3, 44, 3, 255, 255, 255, 255, 255, 255, 255, 255, 255, 255, 255, 255, 255, 255, 255, 255, 255, 255, 255, 255, 255, 255, 255, 255, 255, 255, 255, 255, 255, 255, 255, 255, 255, 255, 255, 255, 54, 3, 60, 3, 7, 0, 13, 0, 27, 91, 37, 105, 37, 112, 49, 37, 100, 59, 37, 112, 50, 37, 100, 114, 0, 27, 91, 51, 103, 0, 27, 91, 72, 27, 91, 74, 0, 27, 91, 75, 0, 27, 91, 74, 0, 27, 91, 37, 105, 37, 112, 49, 37, 100, 71, 0, 27, 91, 37, 105, 37, 112, 49, 37, 100, 59, 37, 112, 50, 37, 100, 72, 0, 10, 0, 27, 91, 72, 0, 27, 91, 63, 50, 53, 108, 27, 91, 63, 49, 99, 0, 8, 0, 27, 91, 63, 50, 53, 104, 27, 91, 63, 48, 99, 0, 27, 91, 67, 0, 27, 91, 65, 0, 27, 91, 63, 50, 53, 104, 27, 91, 63, 56, 99, 0, 27, 91, 80, 0, 27, 91, 77, 0, 14, 0, 27, 91, 53, 109, 0, 27, 91, 49, 109, 0, 27, 91, 50, 109, 0, 27, 91, 52, 104, 0, 27, 91, 55, 109, 0, 27, 91, 55, 109, 0, 27, 91, 52, 109, 0, 27, 91, 37, 112, 49, 37, 100, 88, 0, 15, 0, 27, 91, 109, 15, 0, 27, 91, 52, 108, 0, 27, 91, 50, 55, 109, 0, 27, 91, 50, 52, 109, 0, 27, 91, 63, 53, 104, 36, 60, 50, 48, 48, 47, 62, 27, 91, 63, 53, 108, 0, 27, 91, 64, 0, 27, 91, 76, 0, 127, 0, 27, 91, 51, 126, 0, 27, 91, 66, 0, 27, 91, 91, 65, 0, 27, 91, 50, 49, 126, 0, 27, 91, 91, 66, 0, 27, 91, 91, 67, 0, 27, 91, 91, 68, 0, 27, 91, 91, 69, 0, 27, 91, 49, 55, 126, 0, 27, 91, 49, 56, 126, 0, 27, 91, 49, 57, 126, 0, 27, 91, 50, 48, 126, 0, 27, 91, 49, 126, 0, 27, 91, 50, 126, 0, 27, 91, 68, 0, 27, 91, 54, 126, 0, 27, 91, 53, 126, 0, 27, 91, 67, 0, 27, 91, 65, 0, 13, 10, 0, 27, 91, 37, 112, 49, 37, 100, 80, 0, 27, 91, 37, 112, 49, 37, 100, 77, 0, 27, 91, 37, 112, 49, 37, 100, 66, 0, 27, 91, 37, 112, 49, 37, 100, 64, 0, 27, 91, 37, 112, 49, 37, 100, 76, 0, 27, 91, 37, 112, 49, 37, 100, 68, 0, 27, 91, 37, 112, 49, 37, 100, 67, 0, 27, 91, 37, 112, 49, 37, 100, 65, 0, 27, 99, 27, 93, 82, 0, 27, 56, 0, 27, 91, 37, 105, 37, 112, 49, 37, 100, 100, 0, 27, 55, 0, 10, 0, 27, 77, 0, 27, 91, 48, 59, 49, 48, 37, 63, 37, 112, 49, 37, 116, 59, 55, 37, 59, 37, 63, 37, 112, 50, 37, 116, 59, 52, 37, 59, 37, 63, 37, 112, 51, 37, 116, 59, 55, 37, 59, 37, 63, 37, 112, 52, 37, 116, 59, 53, 37, 59, 37, 63, 37, 112, 53, 37, 116, 59, 50, 37, 59, 37, 63, 37, 112, 54, 37, 116, 59, 49, 37, 59, 109, 37, 63, 37, 112, 57, 37, 116, 14, 37, 101, 15, 37, 59, 0, 27, 72, 0, 9, 0, 27, 91, 71, 0, 43, 43, 44, 44, 45, 45, 46, 46, 48, 48, 96, 96, 97, 97, 102, 102, 103, 103, 104, 104, 105, 105, 106, 106, 107, 107, 108, 108, 109, 109, 110, 110, 111, 111, 112, 112, 113, 113, 114, 114, 115, 115, 116, 116, 117, 117, 118, 118, 119, 119, 120, 120, 121, 121, 122, 122, 123, 123, 124, 124, 125, 125, 126, 126, 0, 27, 9, 0, 27, 91, 63, 55, 104, 0, 27, 91, 63, 55, 108, 0, 27, 41, 48, 0, 27, 91, 52, 126, 0, 26, 0, 27, 91, 50, 51, 126, 0, 27, 91, 50, 52, 126, 0, 27, 91, 50, 53, 126, 0, 27, 91, 50, 54, 126, 0, 27, 91, 50, 56, 126, 0, 27, 91, 50, 57, 126, 0, 27, 91, 51, 49, 126, 0, 27, 91, 51, 50, 126, 0, 27, 91, 51, 51, 126, 0, 27, 91, 51, 52, 126, 0, 27, 91, 49, 75, 0, 27, 91, 37, 105, 37, 100, 59, 37, 100, 82, 0, 27, 91, 54, 110, 0, 27, 91, 63, 54, 99, 0, 27, 91, 99, 0, 27, 91, 51, 57, 59, 52, 57, 109, 0, 27, 93, 82, 0, 27, 93, 80, 37, 112, 49, 37, 120, 37, 112, 50, 37, 123, 50, 53, 53, 125, 37, 42, 37, 123, 49, 48, 48, 48, 125, 37, 47, 37, 48, 50, 120, 37, 112, 51, 37, 123, 50, 53, 53, 125, 37, 42, 37, 123, 49, 48, 48, 48, 125, 37, 47, 37, 48, 50, 120, 37, 112, 52, 37, 123, 50, 53, 53, 125, 37, 42, 37, 123, 49, 48, 48, 48, 125, 37, 47, 37, 48, 50, 120, 0, 27, 91, 77, 0, 27, 91, 51, 37, 112, 49, 37, 100, 109, 0, 27, 91, 52, 37, 112, 49, 37, 100, 109, 0, 27, 91, 49, 49, 109, 0, 27, 91, 49, 48, 109, 0, 1, 0, 1, 0, 2, 0, 6, 0, 24, 0, 1, 0, 1, 0, 0, 0, 5, 0, 0, 0, 3, 0, 6, 0, 9, 0, 27, 91, 51, 74, 0, 27, 91, 90, 0, 65, 88, 0, 85, 56, 0, 69, 51, 0, 107, 99, 98, 116, 50, 0];

const FIX_AIXTERM: &[u8] = &[26, 1, 38, 0, 21, 0, 15, 0, 111, 1, 2, 4, 97, 105, 120, 116, 101, 114, 109, 124, 73, 66, 77, 32, 65, 105, 120, 116, 101, 114, 109, 32, 84, 101, 114, 109, 105, 110, 97, 108, 32, 69, 109, 117, 108, 97, 116, 111, 114, 0, 1, 1, 0, 0, 0, 0, 0, 0, 0, 1, 0, 0, 0, 0, 1, 0, 1, 0, 0, 0, 1, 0, 80, 0, 8, 0, 25, 0, 255, 255, 255, 255, 255, 255, 255, 255, 255, 255, 255, 255, 255, 255, 255, 255, 255, 255, 255, 255, 8, 0, 64, 0, 255, 255, 0, 0, 2, 0, 255, 255, 255, 255, 4, 0, 11, 0, 15, 0, 19, 0, 255, 255, 30, 0, 47, 0, 49, 0, 255, 255, 53, 0, 255, 255, 255, 255, 55, 0, 255, 255, 59, 0, 255, 255, 63, 0, 67, 0, 71, 0, 255, 255, 76, 0, 255, 255, 80, 0, 255, 255, 255, 255, 255, 255, 85, 0, 90, 0, 255, 255, 95, 0, 100, 0, 105, 0, 110, 0, 119, 0, 123, 0, 255, 255, 255, 255, 134, 0, 139, 0, 143, 0, 255, 255, 255, 255, 147, 0, 255, 255, 152, 0, 255, 255, 255, 255, 255, 255, 155, 0, 255, 255, 159, 0, 255, 255, 161, 0, 255, 255, 168, 0, 255, 255, 172, 0, 176, 0, 181, 0, 188, 0, 255, 255, 195, 0, 202, 0, 209, 0, 216, 0, 223, 0, 230, 0, 237, 0, 244, 0, 251, 0, 2, 1, 9, 1, 13, 1, 20, 1, 27, 1, 255, 255, 31, 1, 38, 1, 45, 1, 49, 1, 56, 1, 255, 255, 63, 1, 255, 255, 255, 255, 255, 255, 255, 255, 255, 255, 255, 255, 255, 255, 255, 255, 255, 255, 255, 255, 255, 255, 255, 255, 255, 255, 255, 255, 255, 255, 255, 255, 255, 255, 255, 255, 67, 1, 76, 1, 255, 255, 85, 1, 94, 1, 103, 1, 112, 1, 121, 1, 130, 1, 255, 255, 255, 255, 255, 255, 255, 255, 255, 255, 255, 255, 255, 255, 255, 255, 139, 1, 255, 255, 255, 255, 142, 1, 255, 255, 145, 1, 148, 1, 254, 255, 152, 1, 255, 255, 255, 255, 255, 255, 232, 1, 255, 255, 255, 255, 255, 255, 255, 255, 255, 255, 255, 255, 255, 255, 255, 255, 255, 255, 255, 255, 242, 1, 255, 255, 9, 2, 255, 255, 255, 255, 255, 255, 255, 255, 255, 255, 255, 255, 255, 255, 255, 255, 255, 255, 255, 255, 255, 255, 255, 255, 255, 255, 255, 255, 255, 255, 13, 2, 255, 255, 255, 255, 255, 255, 255, 255, 255, 255, 255, 255, 255, 255, 255, 255, 255, 255, 255, 255, 255, 255, 255, 255, 255, 255, 255, 255, 255, 255, 255, 255, 255, 255, 255, 255, 255, 255, 255, 255, 255, 255, 255, 255, 255, 255, 255, 255, 255, 255, 255, 255, 255, 255, 255, 255, 255, 255, 255, 255, 255, 255, 255, 255, 255, 255, 255, 255, 255, 255, 255, 255, 255, 255, 255, 255, 255, 255, 255, 255, 255, 255, 255, 255, 255, 255, 255, 255, 255, 255, 255, 255, 255, 255, 255, 255, 255, 255, 255, 255, 255, 255, 20, 2, 27, 2, 34, 2, 41, 2, 48, 2, 55, 2, 62, 2, 69, 2, 76, 2, 83, 2, 90, 2, 97, 2, 104, 2, 111, 2, 118, 2, 125, 2, 132, 2, 139, 2, 146, 2, 153, 2, 160, 2, 167, 2, 174, 2, 181, 2, 188, 2, 195, 2, 255, 255, 255, 255, 255, 255, 255, 255, 255, 255, 255, 255, 255, 255, 255, 255, 255, 255, 255, 255, 255, 255, 255, 255, 255, 255, 255, 255, 255, 255, 255, 255, 255, 255, 255, 255, 255, 255, 255, 255, 255, 255, 255, 255, 255, 255, 255, 255, 255, 255, 255, 255, 255, 255, 255, 255, 255, 255, 255, 255, 255, 255, 255, 255, 255, 255, 255, 255, 255, 255, 255, 255, 255, 255, 255, 255, 255, 255, 255, 255, 255, 255, 255, 255, 255, 255, 255, 255, 255, 255, 255, 255, 255, 255, 255, 255, 255, 255, 255, 255, 255, 255, 255, 255, 255, 255, 255, 255, 255, 255, 202, 2, 255, 255, 255, 255, 255, 255, 255, 255, 213, 2, 90, 3, 255, 255, 255, 255, 255, 255, 255, 255, 255, 255, 255, 255, 255, 255, 255, 255, 255, 255, 255, 255, 255, 255, 255, 255, 255, 255, 255, 255, 255, 255, 255, 255, 255, 255, 255, 255, 255, 255, 255, 255, 255, 255, 255, 255, 255, 255, 255, 255, 255, 255, 255, 255, 255, 255, 255, 255, 255, 255, 255, 255, 255, 255, 255, 255, 255, 255, 255, 255, 255, 255, 255, 255, 255, 255, 255, 255, 255, 255, 255, 255, 255, 255, 255, 255, 255, 255, 255, 255, 255, 255, 255, 255, 255, 255, 255, 255, 255, 255, 255, 255, 255, 255, 255, 255, 255, 255, 255, 255, 255, 255, 224, 3, 234, 3, 255, 255, 255, 255, 255, 255, 244, 3, 248, 3, 252, 3, 7, 0, 13, 0, 27, 91, 72, 27, 91, 74, 0, 27, 91, 75, 0, 27, 91, 74, 0, 27, 91, 37, 105, 37, 112, 49, 37, 100, 71, 0, 27, 91, 37, 105, 37, 112, 49, 37, 100, 59, 37, 112, 50, 37, 100, 72, 0, 10, 0, 27, 91, 72, 0, 8, 0, 27, 91, 67, 0, 27, 91, 65, 0, 27, 91, 80, 0, 27, 91, 77, 0, 27, 91, 63, 69, 0, 27, 40, 48, 0, 27, 91, 49, 109, 0, 27, 91, 52, 104, 0, 27, 91, 56, 109, 0, 27, 91, 55, 109, 0, 27, 91, 55, 109, 0, 27, 91, 52, 109, 0, 27, 91, 37, 112, 49, 37, 100, 88, 0, 27, 40, 66, 0, 27, 91, 48, 59, 49, 48, 109, 27, 40, 66, 0, 27, 91, 52, 108, 0, 27, 91, 109, 0, 27, 91, 109, 0, 27, 91, 63, 70, 0, 27, 99, 0, 27, 91, 76, 0, 8, 0, 27, 91, 49, 52, 52, 113, 0, 27, 91, 80, 0, 27, 91, 66, 0, 27, 91, 52, 108, 0, 27, 91, 49, 52, 50, 113, 0, 27, 91, 49, 52, 56, 113, 0, 27, 91, 48, 48, 49, 113, 0, 27, 91, 48, 49, 48, 113, 0, 27, 91, 48, 48, 50, 113, 0, 27, 91, 48, 48, 51, 113, 0, 27, 91, 48, 48, 52, 113, 0, 27, 91, 48, 48, 53, 113, 0, 27, 91, 48, 48, 54, 113, 0, 27, 91, 48, 48, 55, 113, 0, 27, 91, 48, 48, 56, 113, 0, 27, 91, 48, 48, 57, 113, 0, 27, 91, 72, 0, 27, 91, 49, 51, 57, 113, 0, 27, 91, 49, 52, 48, 113, 0, 27, 91, 68, 0, 27, 91, 49, 53, 52, 113, 0, 27, 91, 49, 53, 48, 113, 0, 27, 91, 67, 0, 27, 91, 49, 53, 49, 113, 0, 27, 91, 49, 53, 53, 113, 0, 27, 91, 65, 0, 27, 91, 37, 112, 49, 37, 100, 77, 0, 27, 91, 37, 112, 49, 37, 100, 66, 0, 27, 91, 37, 112, 49, 37, 100, 83, 0, 27, 91, 37, 112, 49, 37, 100, 76, 0, 27, 91, 37, 112, 49, 37, 100, 68, 0, 27, 91, 37, 112, 49, 37, 100, 67, 0, 27, 91, 37, 112, 49, 37, 100, 84, 0, 27, 91, 37, 112, 49, 37, 100, 65, 0, 27, 99, 0, 27, 56, 0, 27, 55, 0, 27, 91, 83, 0, 27, 91, 48, 59, 49, 48, 37, 63, 37, 112, 49, 37, 116, 59, 55, 37, 59, 37, 63, 37, 112, 50, 37, 116, 59, 52, 37, 59, 37, 63, 37, 112, 51, 37, 116, 59, 55, 37, 59, 37, 63, 37, 112, 54, 37, 116, 59, 49, 37, 59, 37, 63, 37, 112, 55, 37, 116, 59, 56, 37, 59, 109, 37, 63, 37, 112, 57, 37, 116, 27, 40, 48, 37, 101, 27, 40, 66, 37, 59, 0, 27, 91, 63, 37, 112, 49, 37, 100, 84, 0, 106, 106, 107, 107, 108, 108, 109, 109, 110, 110, 113, 113, 116, 116, 117, 117, 118, 118, 119, 119, 120, 120, 0, 27, 91, 90, 0, 27, 91, 49, 52, 54, 113, 0, 27, 91, 48, 49, 49, 113, 0, 27, 91, 48, 49, 50, 113, 0, 27, 91, 48, 49, 51, 113, 0, 27, 91, 48, 49, 52, 113, 0, 27, 91, 48, 49, 53, 113, 0, 27, 91, 48, 49, 54, 113, 0, 27, 91, 48, 49, 55, 113, 0, 27, 91, 48, 49, 56, 113, 0, 27, 91, 48, 49, 57, 113, 0, 27, 91, 48, 50, 48, 113, 0, 27, 91, 48, 50, 49, 113, 0, 27, 91, 48, 50, 50, 113, 0, 27, 91, 48, 50, 51, 113, 0, 27, 91, 48, 50, 52, 113, 0, 27, 91, 48, 50, 53, 113, 0, 27, 91, 48, 50, 54, 113, 0, 27, 91, 48, 50, 55, 113, 0, 27, 91, 48, 50, 56, 113, 0, 27, 91, 48, 50, 57, 113, 0, 27, 91, 48, 51, 48, 113, 0, 27, 91, 48, 51, 49, 113, 0, 27, 91, 48, 51, 50, 113, 0, 27, 91, 48, 51, 51, 113, 0, 27, 91, 48, 51, 52, 113, 0, 27, 91, 48, 51, 53, 113, 0, 27, 91, 48, 51, 54, 113, 0, 27, 91, 51, 50, 109, 27, 91, 52, 48, 109, 0, 27, 91, 37, 63, 37, 112, 49, 37, 123, 48, 125, 37, 61, 37, 116, 51, 48, 109, 37, 101, 37, 112, 49, 37, 123, 49, 125, 37, 61, 37, 116, 51, 49, 109, 37, 101, 37, 112, 49, 37, 123, 50, 125, 37, 61, 37, 116, 51, 50, 109, 37, 101, 37, 112, 49, 37, 123, 51, 125, 37, 61, 37, 116, 51, 51, 109, 37, 101, 37, 112, 49, 37, 123, 52, 125, 37, 61, 37, 116, 51, 52, 109, 37, 101, 37, 112, 49, 37, 123, 53, 125, 37, 61, 37, 116, 51, 53, 109, 37, 101, 37, 112, 49, 37, 123, 54, 125, 37, 61, 37, 116, 51, 54, 109, 37, 101, 37, 112, 49, 37, 123, 55, 125, 37, 61, 37, 116, 57, 55, 109, 37, 59, 0, 27, 91, 37, 63, 37, 112, 49, 37, 123, 48, 125, 37, 61, 37, 116, 52, 48, 109, 37, 101, 37, 112, 49, 37, 123, 49, 125, 37, 61, 37, 116, 52, 49, 109, 37, 101, 37, 112, 49, 37, 123, 50, 125, 37, 61, 37, 116, 52, 50, 109, 37, 101, 37, 112, 49, 37, 123, 51, 125, 37, 61, 37, 116, 52, 51, 109, 37, 101, 37, 112, 49, 37, 123, 52, 125, 37, 61, 37, 116, 52, 52, 109, 37, 101, 37, 112, 49, 37, 123, 53, 125, 37, 61, 37, 116, 52, 53, 109, 37, 101, 37, 112, 49, 37, 123, 54, 125, 37, 61, 37, 116, 52, 54, 109, 37, 101, 37, 112, 49, 37, 123, 55, 125, 37, 61, 37, 116, 49, 48, 55, 109, 37, 59, 0, 27, 91, 51, 37, 112, 49, 37, 100, 109, 0, 27, 91, 52, 37, 112, 49, 37, 100, 109, 0, 27, 40, 66, 0, 27, 40, 48, 0, 27, 91, 49, 50, 109, 0];

const FIX_WY350_WVB: &[u8] = &[26, 1, 55, 0, 23, 0, 16, 0, 48, 1, 249, 2, 119, 121, 51, 53, 48, 45, 119, 118, 98, 124, 119, 121, 115, 101, 51, 53, 48, 45, 119, 118, 98, 124, 87, 121, 115, 101, 32, 51, 53, 48, 32, 49, 51, 50, 45, 99, 111, 108, 117, 109, 110, 32, 118, 105, 115, 105, 98, 108, 101, 32, 98, 101, 108, 108, 0, 1, 1, 0, 0, 0, 0, 0, 0, 0, 1, 0, 0, 0, 1, 0, 0, 0, 0, 0, 0, 1, 0, 1, 132, 0, 255, 255, 24, 0, 255, 255, 1, 0, 255, 255, 255, 255, 97, 0, 16, 0, 1, 0, 7, 0, 255, 255, 255, 255, 8, 0, 8, 0, 55, 0, 0, 0, 254, 255, 3, 0, 255, 255, 5, 0, 8, 0, 16, 0, 19, 0, 255, 255, 255, 255, 27, 0, 44, 0, 46, 0, 48, 0, 52, 0, 255, 255, 54, 0, 58, 0, 60, 0, 63, 0, 255, 255, 65, 0, 72, 0, 75, 0, 255, 255, 79, 0, 86, 0, 255, 255, 255, 255, 255, 255, 90, 0, 94, 0, 97, 0, 101, 0, 107, 0, 111, 0, 115, 0, 255, 255, 119, 0, 126, 0, 255, 255, 255, 255, 149, 0, 152, 0, 156, 0, 160, 0, 255, 255, 174, 0, 176, 0, 188, 0, 195, 0, 255, 255, 255, 255, 199, 0, 202, 0, 207, 0, 255, 255, 255, 255, 255, 255, 209, 0, 212, 0, 215, 0, 255, 255, 217, 0, 220, 0, 255, 255, 223, 0, 227, 0, 231, 0, 235, 0, 239, 0, 243, 0, 247, 0, 251, 0, 255, 0, 3, 1, 7, 1, 9, 1, 12, 1, 15, 1, 255, 255, 17, 1, 20, 1, 23, 1, 255, 255, 255, 255, 255, 255, 25, 1, 255, 255, 255, 255, 255, 255, 255, 255, 255, 255, 255, 255, 255, 255, 255, 255, 255, 255, 255, 255, 255, 255, 255, 255, 255, 255, 255, 255, 255, 255, 27, 1, 255, 255, 255, 255, 255, 255, 255, 255, 255, 255, 255, 255, 255, 255, 255, 255, 255, 255, 255, 255, 255, 255, 255, 255, 255, 255, 30, 1, 50, 1, 53, 1, 55, 1, 255, 255, 255, 255, 255, 255, 255, 255, 255, 255, 255, 255, 255, 255, 255, 255, 57, 1, 63, 1, 66, 1, 229, 1, 255, 255, 232, 1, 234, 1, 255, 255, 255, 255, 255, 255, 255, 255, 255, 255, 255, 255, 255, 255, 255, 255, 255, 255, 255, 255, 237, 1, 10, 2, 30, 2, 255, 255, 255, 255, 255, 255, 255, 255, 255, 255, 255, 255, 255, 255, 33, 2, 38, 2, 255, 255, 255, 255, 255, 255, 255, 255, 255, 255, 255, 255, 255, 255, 43, 2, 255, 255, 255, 255, 255, 255, 255, 255, 255, 255, 255, 255, 255, 255, 255, 255, 255, 255, 255, 255, 46, 2, 255, 255, 255, 255, 255, 255, 49, 2, 255, 255, 255, 255, 255, 255, 255, 255, 255, 255, 255, 255, 255, 255, 255, 255, 255, 255, 255, 255, 255, 255, 255, 255, 255, 255, 255, 255, 255, 255, 255, 255, 255, 255, 255, 255, 52, 2, 255, 255, 255, 255, 255, 255, 255, 255, 255, 255, 255, 255, 255, 255, 255, 255, 255, 255, 255, 255, 255, 255, 255, 255, 255, 255, 255, 255, 255, 255, 255, 255, 55, 2, 59, 2, 63, 2, 67, 2, 71, 2, 75, 2, 255, 255, 255, 255, 255, 255, 255, 255, 255, 255, 255, 255, 255, 255, 255, 255, 255, 255, 255, 255, 255, 255, 255, 255, 255, 255, 255, 255, 255, 255, 255, 255, 255, 255, 255, 255, 255, 255, 255, 255, 255, 255, 255, 255, 255, 255, 255, 255, 255, 255, 255, 255, 255, 255, 255, 255, 255, 255, 255, 255, 255, 255, 255, 255, 255, 255, 255, 255, 255, 255, 255, 255, 255, 255, 255, 255, 255, 255, 255, 255, 255, 255, 255, 255, 255, 255, 255, 255, 255, 255, 255, 255, 255, 255, 255, 255, 255, 255, 255, 255, 255, 255, 255, 255, 255, 255, 255, 255, 255, 255, 255, 255, 255, 255, 255, 255, 255, 255, 255, 255, 255, 255, 255, 255, 255, 255, 255, 255, 255, 255, 255, 255, 255, 255, 255, 255, 255, 255, 255, 255, 255, 255, 255, 255, 255, 255, 255, 255, 255, 255, 79, 2, 83, 2, 255, 255, 255, 255, 255, 255, 87, 2, 248, 2, 27, 73, 0, 13, 0, 27, 48, 0, 27, 43, 36, 60, 50, 48, 62, 0, 27, 84, 0, 27, 89, 36, 60, 50, 48, 62, 0, 27, 97, 37, 105, 37, 112, 49, 37, 100, 82, 37, 112, 50, 37, 100, 67, 0, 10, 0, 30, 0, 27, 96, 48, 0, 8, 0, 27, 96, 49, 0, 12, 0, 30, 11, 0, 11, 0, 27, 87, 36, 60, 50, 62, 0, 27, 82, 0, 27, 70, 13, 0, 27, 71, 48, 27, 72, 2, 0, 27, 71, 50, 0, 27, 71, 112, 0, 27, 113, 0, 27, 71, 49, 0, 27, 71, 48, 27, 41, 0, 27, 71, 52, 0, 27, 71, 52, 0, 27, 71, 56, 0, 27, 71, 48, 27, 72, 3, 0, 27, 71, 48, 27, 40, 27, 72, 3, 37, 123, 48, 125, 37, 80, 65, 37, 123, 48, 125, 37, 80, 67, 0, 27, 114, 0, 27, 71, 48, 0, 27, 71, 48, 0, 27, 96, 56, 36, 60, 49, 48, 48, 47, 62, 27, 96, 57, 0, 13, 0, 27, 96, 59, 27, 96, 57, 36, 60, 51, 48, 62, 0, 14, 20, 27, 39, 27, 40, 0, 27, 37, 63, 0, 27, 69, 0, 36, 60, 49, 62, 0, 8, 0, 27, 87, 0, 27, 82, 0, 10, 0, 27, 84, 0, 27, 89, 0, 1, 64, 13, 0, 1, 73, 13, 0, 1, 65, 13, 0, 1, 66, 13, 0, 1, 67, 13, 0, 1, 68, 13, 0, 1, 69, 13, 0, 1, 70, 13, 0, 1, 71, 13, 0, 1, 72, 13, 0, 30, 0, 27, 81, 0, 27, 69, 0, 8, 0, 27, 75, 0, 27, 74, 0, 12, 0, 11, 0, 13, 10, 0, 27, 122, 37, 112, 49, 37, 39, 63, 39, 37, 43, 37, 99, 37, 112, 50, 37, 115, 127, 0, 27, 80, 0, 20, 0, 24, 0, 10, 36, 60, 50, 62, 0, 27, 106, 0, 37, 123, 48, 125, 37, 63, 37, 112, 52, 37, 116, 37, 123, 50, 125, 37, 124, 37, 59, 37, 63, 37, 112, 55, 37, 116, 37, 123, 49, 125, 37, 124, 37, 59, 37, 80, 65, 27, 71, 37, 63, 37, 103, 67, 37, 116, 37, 103, 67, 37, 101, 37, 123, 48, 125, 37, 63, 37, 112, 49, 37, 116, 37, 123, 52, 125, 37, 124, 37, 59, 37, 63, 37, 112, 50, 37, 116, 37, 123, 56, 125, 37, 124, 37, 59, 37, 63, 37, 112, 51, 37, 116, 37, 123, 52, 125, 37, 124, 37, 59, 37, 63, 37, 112, 53, 37, 116, 37, 39, 64, 39, 37, 124, 37, 59, 37, 59, 37, 103, 65, 37, 43, 37, 39, 48, 39, 37, 43, 37, 99, 37, 63, 37, 112, 56, 37, 116, 27, 41, 37, 101, 27, 40, 37, 59, 37, 63, 37, 112, 57, 37, 116, 27, 72, 2, 37, 101, 27, 72, 3, 37, 59, 0, 27, 49, 0, 9, 0, 27, 70, 0, 48, 119, 97, 95, 104, 91, 106, 117, 107, 115, 108, 114, 109, 113, 110, 120, 113, 122, 116, 116, 117, 121, 118, 93, 119, 112, 120, 118, 0, 27, 122, 37, 112, 49, 37, 39, 47, 39, 37, 43, 37, 99, 37, 112, 50, 37, 115, 13, 0, 27, 73, 0, 27, 65, 49, 48, 0, 27, 65, 49, 49, 0, 27, 55, 0, 27, 80, 0, 27, 114, 0, 27, 123, 0, 1, 74, 13, 0, 1, 75, 13, 0, 1, 76, 13, 0, 1, 77, 13, 0, 1, 78, 13, 0, 1, 79, 13, 0, 27, 71, 48, 0, 27, 37, 63, 0, 37, 63, 37, 112, 49, 37, 123, 48, 125, 37, 61, 37, 116, 37, 39, 76, 39, 37, 101, 37, 112, 49, 37, 123, 49, 125, 37, 61, 37, 116, 37, 39, 64, 39, 37, 101, 37, 112, 49, 37, 123, 50, 125, 37, 61, 37, 116, 37, 123, 56, 125, 37, 101, 37, 112, 49, 37, 123, 51, 125, 37, 61, 37, 116, 37, 39, 72, 39, 37, 101, 37, 112, 49, 37, 123, 52, 125, 37, 61, 37, 116, 37, 123, 52, 125, 37, 101, 37, 112, 49, 37, 123, 53, 125, 37, 61, 37, 116, 37, 39, 68, 39, 37, 101, 37, 112, 49, 37, 123, 54, 125, 37, 61, 37, 116, 37, 123, 49, 50, 125, 37, 101, 37, 112, 49, 37, 123, 55, 125, 37, 61, 37, 116, 37, 123, 48, 125, 37, 59, 37, 80, 67, 27, 71, 37, 103, 67, 37, 103, 65, 37, 43, 37, 39, 48, 39, 37, 43, 37, 99, 0, 0];

const FIX_PMCONS: &[u8] = &[26, 1, 30, 0, 2, 0, 3, 0, 135, 0, 48, 0, 112, 109, 99, 111, 110, 115, 124, 112, 109, 99, 111, 110, 115, 111, 108, 101, 124, 80, 77, 65, 88, 32, 99, 111, 110, 115, 111, 108, 101, 0, 0, 1, 128, 0, 255, 255, 57, 0, 255, 255, 0, 0, 2, 0, 255, 255, 255, 255, 4, 0, 255, 255, 255, 255, 255, 255, 255, 255, 255, 255, 6, 0, 255, 255, 255, 255, 8, 0, 255, 255, 255, 255, 255, 255, 255, 255, 10, 0, 255, 255, 255, 255, 255, 255, 255, 255, 255, 255, 255, 255, 255, 255, 255, 255, 255, 255, 255, 255, 255, 255, 255, 255, 255, 255, 255, 255, 255, 255, 255, 255, 255, 255, 255, 255, 255, 255, 255, 255, 255, 255, 255, 255, 255, 255, 255, 255, 255, 255, 255, 255, 255, 255, 255, 255, 255, 255, 255, 255, 255, 255, 255, 255, 255, 255, 255, 255, 255, 255, 255, 255, 255, 255, 255, 255, 255, 255, 255, 255, 255, 255, 12, 0, 255, 255, 255, 255, 255, 255, 255, 255, 16, 0, 255, 255, 20, 0, 24, 0, 28, 0, 255, 255, 255, 255, 255, 255, 255, 255, 255, 255, 255, 255, 255, 255, 255, 255, 32, 0, 255, 255, 255, 255, 255, 255, 36, 0, 255, 255, 255, 255, 255, 255, 40, 0, 255, 255, 255, 255, 255, 255, 255, 255, 255, 255, 255, 255, 255, 255, 255, 255, 255, 255, 255, 255, 255, 255, 255, 255, 255, 255, 255, 255, 255, 255, 255, 255, 255, 255, 255, 255, 255, 255, 255, 255, 255, 255, 255, 255, 255, 255, 255, 255, 255, 255, 255, 255, 255, 255, 255, 255, 255, 255, 255, 255, 255, 255, 255, 255, 255, 255, 255, 255, 255, 255, 255, 255, 255, 255, 255, 255, 255, 255, 255, 255, 255, 255, 44, 0, 255, 255, 255, 255, 255, 255, 255, 255, 46, 0, 7, 0, 13, 0, 12, 0, 10, 0, 8, 0, 11, 0, 27, 91, 66, 0, 27, 79, 80, 0, 27, 79, 81, 0, 27, 79, 82, 0, 27, 79, 83, 0, 27, 91, 68, 0, 27, 91, 67, 0, 27, 91, 65, 0, 10, 0, 9, 0];

const FIX_NCR160WY60PP: &[u8] = &[26, 1, 34, 0, 23, 0, 9, 0, 238, 0, 140, 2, 110, 99, 114, 49, 54, 48, 119, 121, 54, 48, 112, 112, 124, 78, 67, 82, 32, 50, 57, 48, 48, 47, 49, 54, 48, 32, 87, 121, 115, 101, 32, 54, 48, 0, 1, 1, 0, 0, 0, 0, 0, 0, 1, 1, 0, 0, 0, 1, 1, 0, 0, 0, 0, 0, 1, 0, 1, 0, 80, 0, 255, 255, 24, 0, 255, 255, 255, 255, 255, 255, 255, 255, 255, 255, 32, 0, 0, 0, 8, 0, 10, 0, 255, 255, 12, 0, 20, 0, 29, 0, 36, 0, 255, 255, 255, 255, 43, 0, 73, 0, 79, 0, 86, 0, 90, 0, 96, 0, 138, 0, 142, 0, 255, 255, 148, 0, 154, 0, 158, 0, 166, 0, 173, 0, 255, 255, 177, 0, 181, 0, 255, 255, 255, 255, 255, 255, 255, 255, 185, 0, 188, 0, 255, 255, 192, 0, 196, 0, 200, 0, 255, 255, 204, 0, 208, 0, 255, 255, 255, 255, 224, 0, 227, 0, 231, 0, 255, 255, 255, 255, 235, 0, 255, 255, 237, 0, 255, 255, 255, 255, 255, 255, 41, 1, 255, 255, 48, 1, 255, 255, 255, 255, 255, 255, 50, 1, 255, 255, 53, 1, 255, 255, 255, 255, 255, 255, 255, 255, 55, 1, 59, 1, 63, 1, 67, 1, 71, 1, 75, 1, 79, 1, 83, 1, 87, 1, 91, 1, 95, 1, 97, 1, 255, 255, 100, 1, 255, 255, 102, 1, 105, 1, 108, 1, 255, 255, 255, 255, 255, 255, 110, 1, 255, 255, 255, 255, 255, 255, 255, 255, 255, 255, 255, 255, 255, 255, 255, 255, 255, 255, 255, 255, 255, 255, 255, 255, 255, 255, 255, 255, 255, 255, 112, 1, 255, 255, 255, 255, 255, 255, 255, 255, 255, 255, 255, 255, 255, 255, 255, 255, 255, 255, 255, 255, 255, 255, 255, 255, 255, 255, 255, 255, 118, 1, 121, 1, 123, 1, 255, 255, 255, 255, 125, 1, 255, 255, 255, 255, 255, 255, 255, 255, 255, 255, 185, 1, 191, 1, 255, 255, 198, 1, 255, 255, 206, 1, 213, 1, 255, 255, 255, 255, 255, 255, 216, 1, 255, 255, 218, 1, 221, 1, 224, 1, 255, 255, 255, 255, 227, 1, 255, 255, 0, 2, 8, 2, 13, 2, 18, 2, 22, 2, 255, 255, 255, 255, 255, 255, 255, 255, 255, 255, 255, 255, 255, 255, 255, 255, 255, 255, 255, 255, 255, 255, 26, 2, 255, 255, 255, 255, 255, 255, 255, 255, 255, 255, 255, 255, 255, 255, 255, 255, 255, 255, 255, 255, 255, 255, 29, 2, 255, 255, 255, 255, 255, 255, 255, 255, 255, 255, 255, 255, 255, 255, 255, 255, 255, 255, 255, 255, 255, 255, 255, 255, 255, 255, 255, 255, 32, 2, 255, 255, 255, 255, 35, 2, 255, 255, 255, 255, 255, 255, 255, 255, 38, 2, 255, 255, 255, 255, 255, 255, 255, 255, 41, 2, 255, 255, 44, 2, 47, 2, 255, 255, 255, 255, 50, 2, 255, 255, 255, 255, 255, 255, 255, 255, 255, 255, 52, 2, 56, 2, 60, 2, 64, 2, 68, 2, 72, 2, 76, 2, 80, 2, 84, 2, 88, 2, 92, 2, 96, 2, 100, 2, 104, 2, 108, 2, 112, 2, 116, 2, 120, 2, 124, 2, 128, 2, 132, 2, 136, 2, 27, 73, 36, 60, 49, 53, 62, 0, 7, 0, 13, 0, 27, 48, 36, 60, 49, 53, 62, 0, 27, 42, 36, 60, 49, 48, 48, 62, 0, 27, 116, 36, 60, 53, 62, 0, 27, 121, 36, 60, 53, 62, 0, 27, 61, 37, 112, 49, 37, 39, 32, 39, 37, 43, 37, 99, 37, 112, 50, 37, 39, 32, 39, 37, 43, 37, 99, 36, 60, 49, 48, 62, 0, 10, 36, 60, 53, 62, 0, 30, 36, 60, 50, 53, 62, 0, 27, 96, 48, 0, 8, 36, 60, 53, 62, 0, 27, 119, 64, 37, 112, 49, 37, 39, 48, 39, 37, 43, 37, 99, 37, 112, 50, 37, 39, 32, 39, 37, 43, 37, 99, 37, 112, 51, 37, 39, 32, 39, 37, 43, 37, 99, 36, 60, 51, 48, 62, 0, 27, 96, 49, 0, 12, 36, 60, 53, 62, 0, 11, 36, 60, 53, 62, 0, 27, 96, 53, 0, 27, 87, 36, 60, 53, 48, 62, 0, 27, 82, 36, 60, 53, 62, 0, 27, 96, 99, 0, 27, 72, 2, 0, 27, 71, 50, 0, 27, 113, 0, 27, 71, 49, 0, 27, 71, 52, 0, 27, 71, 116, 0, 27, 71, 56, 0, 27, 72, 3, 0, 27, 71, 48, 27, 99, 66, 48, 27, 99, 68, 36, 60, 49, 53, 62, 0, 27, 114, 0, 27, 71, 48, 0, 27, 71, 48, 0, 13, 0, 27, 101, 54, 27, 126, 52, 36, 60, 49, 48, 48, 62, 27, 43, 27, 100, 47, 27, 101, 49, 27, 100, 42, 27, 114, 27, 79, 27, 96, 49, 27, 96, 58, 27, 96, 64, 27, 126, 33, 27, 34, 27, 101, 52, 27, 120, 64, 27, 96, 57, 27, 101, 55, 36, 60, 49, 48, 48, 62, 0, 27, 69, 36, 60, 53, 62, 0, 8, 0, 27, 87, 0, 10, 0, 1, 64, 13, 0, 1, 73, 13, 0, 1, 65, 13, 0, 1, 66, 13, 0, 1, 67, 13, 0, 1, 68, 13, 0, 1, 69, 13, 0, 1, 70, 13, 0, 1, 71, 13, 0, 1, 72, 13, 0, 30, 0, 27, 113, 0, 8, 0, 27, 75, 0, 27, 74, 0, 12, 0, 11, 0, 31, 36, 60, 53, 62, 0, 27, 80, 0, 20, 0, 18, 0, 27, 101, 54, 27, 126, 52, 36, 60, 49, 48, 48, 62, 27, 43, 27, 100, 47, 27, 101, 49, 27, 100, 42, 27, 114, 27, 79, 27, 96, 49, 27, 96, 58, 27, 96, 64, 27, 126, 33, 27, 34, 27, 101, 52, 27, 120, 64, 27, 96, 57, 27, 101, 55, 36, 60, 49, 48, 48, 62, 0, 10, 36, 60, 53, 62, 0, 27, 106, 36, 60, 53, 62, 0, 27, 49, 36, 60, 49, 53, 62, 0, 9, 36, 60, 49, 53, 62, 0, 27, 70, 0, 30, 0, 27, 74, 0, 27, 84, 0, 27, 75, 0, 48, 55, 97, 63, 104, 59, 106, 53, 107, 51, 108, 50, 109, 49, 110, 56, 113, 58, 116, 52, 117, 57, 118, 61, 119, 48, 120, 54, 0, 27, 73, 36, 60, 49, 53, 62, 0, 27, 99, 50, 49, 0, 27, 99, 50, 48, 0, 27, 100, 47, 0, 27, 100, 46, 0, 27, 84, 0, 27, 80, 0, 27, 82, 0, 27, 89, 0, 27, 123, 0, 27, 75, 0, 27, 74, 0, 27, 55, 0, 12, 0, 1, 74, 13, 0, 1, 75, 13, 0, 1, 76, 13, 0, 1, 77, 13, 0, 1, 78, 13, 0, 1, 79, 13, 0, 1, 96, 13, 0, 1, 97, 13, 0, 1, 98, 13, 0, 1, 99, 13, 0, 1, 100, 13, 0, 1, 101, 13, 0, 1, 102, 13, 0, 1, 103, 13, 0, 1, 104, 13, 0, 1, 105, 13, 0, 1, 106, 13, 0, 1, 107, 13, 0, 1, 108, 13, 0, 1, 109, 13, 0, 1, 110, 13, 0, 1, 111, 13, 0];

const FIX_APPLE2E: &[u8] = &[26, 1, 18, 0, 15, 0, 3, 0, 135, 0, 73, 0, 97, 112, 112, 108, 101, 50, 101, 124, 65, 112, 112, 108, 101, 32, 47, 47, 101, 0, 1, 0, 0, 0, 0, 0, 0, 0, 0, 0, 0, 0, 0, 0, 1, 0, 80, 0, 255, 255, 24, 0, 255, 255, 0, 0, 255, 255, 255, 255, 255, 255, 2, 0, 11, 0, 18, 0, 255, 255, 255, 255, 255, 255, 26, 0, 28, 0, 255, 255, 30, 0, 255, 255, 255, 255, 255, 255, 255, 255, 32, 0, 255, 255, 255, 255, 255, 255, 255, 255, 255, 255, 255, 255, 255, 255, 255, 255, 255, 255, 255, 255, 255, 255, 255, 255, 255, 255, 255, 255, 34, 0, 36, 0, 255, 255, 255, 255, 255, 255, 38, 0, 255, 255, 255, 255, 255, 255, 40, 0, 255, 255, 255, 255, 255, 255, 255, 255, 255, 255, 42, 0, 255, 255, 255, 255, 255, 255, 255, 255, 255, 255, 45, 0, 255, 255, 255, 255, 255, 255, 255, 255, 255, 255, 47, 0, 255, 255, 255, 255, 255, 255, 255, 255, 255, 255, 255, 255, 255, 255, 255, 255, 255, 255, 255, 255, 255, 255, 255, 255, 255, 255, 255, 255, 255, 255, 255, 255, 255, 255, 49, 0, 255, 255, 255, 255, 255, 255, 51, 0, 255, 255, 255, 255, 255, 255, 53, 0, 255, 255, 255, 255, 255, 255, 255, 255, 255, 255, 255, 255, 255, 255, 255, 255, 255, 255, 255, 255, 255, 255, 255, 255, 255, 255, 255, 255, 255, 255, 55, 0, 255, 255, 255, 255, 255, 255, 255, 255, 255, 255, 255, 255, 255, 255, 255, 255, 255, 255, 255, 255, 255, 255, 255, 255, 255, 255, 255, 255, 255, 255, 255, 255, 255, 255, 255, 255, 64, 0, 255, 255, 255, 255, 255, 255, 255, 255, 255, 255, 255, 255, 67, 0, 69, 0, 255, 255, 255, 255, 255, 255, 71, 0, 7, 0, 12, 36, 60, 49, 48, 48, 47, 62, 0, 29, 36, 60, 52, 47, 62, 0, 11, 36, 60, 52, 42, 47, 62, 0, 10, 0, 25, 0, 8, 0, 31, 0, 15, 0, 15, 0, 14, 0, 14, 0, 18, 14, 0, 8, 0, 10, 0, 8, 0, 21, 0, 11, 0, 13, 36, 60, 49, 48, 48, 47, 62, 0, 18, 14, 0, 23, 0, 22, 0, 9, 0];

const FIX_HP2626_NS: &[u8] = &[26, 1, 37, 0, 21, 0, 11, 0, 158, 0, 122, 3, 104, 112, 50, 54, 50, 54, 45, 110, 115, 124, 72, 80, 32, 50, 54, 50, 54, 32, 117, 115, 105, 110, 103, 32, 97, 108, 108, 32, 50, 52, 32, 108, 105, 110, 101, 115, 0, 1, 1, 0, 1, 0, 0, 0, 0, 0, 0, 0, 1, 1, 1, 0, 0, 0, 0, 0, 0, 1, 80, 0, 255, 255, 24, 0, 0, 0, 255, 255, 0, 75, 255, 255, 255, 255, 8, 0, 2, 0, 8, 0, 0, 0, 3, 0, 5, 0, 255, 255, 7, 0, 10, 0, 25, 0, 28, 0, 41, 0, 255, 255, 51, 0, 72, 0, 74, 0, 255, 255, 82, 0, 84, 0, 255, 255, 100, 0, 103, 0, 113, 0, 255, 255, 116, 0, 123, 0, 255, 255, 255, 255, 126, 0, 128, 0, 133, 0, 255, 255, 255, 255, 138, 0, 143, 0, 146, 0, 255, 255, 151, 0, 156, 0, 161, 0, 255, 255, 166, 0, 168, 0, 255, 255, 255, 255, 174, 0, 177, 0, 182, 0, 255, 255, 255, 255, 255, 255, 187, 0, 0, 1, 255, 255, 255, 255, 255, 255, 6, 1, 9, 1, 14, 1, 255, 255, 16, 1, 255, 255, 19, 1, 22, 1, 25, 1, 28, 1, 31, 1, 34, 1, 255, 255, 37, 1, 255, 255, 40, 1, 43, 1, 46, 1, 49, 1, 52, 1, 55, 1, 58, 1, 255, 255, 61, 1, 64, 1, 67, 1, 70, 1, 73, 1, 76, 1, 79, 1, 82, 1, 85, 1, 88, 1, 255, 255, 91, 1, 94, 1, 100, 1, 106, 1, 109, 1, 255, 255, 112, 1, 115, 1, 118, 1, 121, 1, 124, 1, 127, 1, 255, 255, 255, 255, 255, 255, 255, 255, 130, 1, 255, 255, 255, 255, 255, 255, 133, 1, 255, 255, 144, 1, 255, 255, 154, 1, 165, 1, 176, 1, 186, 1, 197, 1, 224, 1, 251, 1, 255, 255, 255, 255, 255, 255, 255, 255, 22, 2, 255, 255, 255, 255, 255, 255, 255, 255, 25, 2, 255, 255, 35, 2, 37, 2, 40, 2, 230, 2, 255, 255, 233, 2, 255, 255, 255, 255, 255, 255, 255, 255, 255, 255, 255, 255, 255, 255, 255, 255, 255, 255, 255, 255, 255, 255, 239, 2, 52, 3, 109, 3, 255, 255, 255, 255, 255, 255, 255, 255, 255, 255, 255, 255, 255, 255, 112, 3, 117, 3, 27, 105, 0, 7, 0, 13, 0, 27, 51, 0, 27, 38, 97, 48, 99, 48, 89, 27, 74, 36, 60, 52, 48, 62, 0, 27, 75, 0, 27, 68, 27, 74, 36, 60, 53, 48, 48, 62, 27, 67, 0, 27, 38, 97, 37, 112, 49, 37, 100, 67, 0, 27, 38, 97, 37, 112, 49, 37, 100, 121, 37, 112, 50, 37, 100, 67, 36, 60, 49, 48, 62, 0, 10, 0, 27, 38, 97, 48, 121, 48, 67, 0, 8, 0, 27, 38, 97, 37, 112, 49, 37, 100, 114, 37, 112, 50, 37, 100, 67, 0, 27, 67, 0, 27, 38, 97, 48, 121, 48, 67, 27, 65, 0, 27, 65, 0, 27, 80, 36, 60, 50, 62, 0, 27, 77, 0, 14, 0, 27, 38, 100, 65, 0, 27, 38, 100, 70, 0, 27, 38, 100, 72, 0, 27, 81, 0, 27, 38, 100, 83, 0, 27, 38, 100, 66, 0, 27, 38, 100, 74, 0, 27, 38, 100, 68, 0, 15, 0, 27, 38, 100, 64, 15, 0, 27, 82, 0, 27, 38, 100, 64, 0, 27, 38, 100, 64, 0, 27, 38, 113, 51, 116, 48, 123, 48, 72, 32, 27, 38, 119, 48, 102, 49, 49, 56, 110, 49, 73, 32, 27, 38, 119, 48, 102, 49, 110, 50, 73, 32, 27, 38, 119, 50, 102, 49, 105, 48, 100, 48, 117, 50, 51, 108, 48, 83, 32, 27, 38, 119, 51, 102, 50, 73, 32, 27, 38, 119, 55, 102, 50, 112, 49, 73, 32, 13, 0, 27, 38, 106, 64, 13, 0, 27, 76, 0, 36, 60, 52, 62, 0, 8, 0, 27, 74, 0, 27, 80, 0, 27, 77, 0, 27, 66, 0, 27, 82, 0, 27, 75, 0, 27, 74, 0, 27, 112, 0, 27, 113, 0, 27, 114, 0, 27, 115, 0, 27, 116, 0, 27, 117, 0, 27, 118, 0, 27, 119, 0, 27, 104, 0, 27, 81, 0, 27, 76, 0, 27, 68, 0, 27, 70, 0, 27, 85, 0, 27, 86, 0, 27, 67, 0, 27, 84, 0, 27, 83, 0, 27, 65, 0, 27, 38, 115, 48, 65, 0, 27, 38, 115, 49, 65, 0, 102, 49, 0, 102, 50, 0, 102, 51, 0, 102, 52, 0, 102, 53, 0, 102, 54, 0, 102, 55, 0, 102, 56, 0, 13, 10, 0, 27, 38, 97, 43, 37, 112, 49, 37, 100, 82, 0, 27, 38, 114, 37, 112, 49, 37, 100, 68, 0, 27, 38, 97, 45, 37, 112, 49, 37, 100, 67, 0, 27, 38, 97, 43, 37, 112, 49, 37, 100, 67, 0, 27, 38, 114, 37, 112, 49, 37, 100, 85, 0, 27, 38, 97, 45, 37, 112, 49, 37, 100, 82, 0, 27, 38, 102, 48, 97, 37, 112, 49, 37, 100, 107, 48, 100, 37, 112, 50, 37, 108, 37, 100, 76, 37, 112, 50, 37, 115, 0, 27, 38, 102, 49, 97, 37, 112, 49, 37, 100, 107, 48, 100, 37, 112, 50, 37, 108, 37, 100, 76, 37, 112, 50, 37, 115, 0, 27, 38, 102, 50, 97, 37, 112, 49, 37, 100, 107, 48, 100, 37, 112, 50, 37, 108, 37, 100, 76, 37, 112, 50, 37, 115, 0, 27, 103, 0, 27, 38, 97, 37, 112, 49, 37, 100, 89, 0, 10, 0, 27, 84, 0, 27, 38, 100, 37, 123, 48, 125, 37, 80, 97, 37, 63, 37, 112, 52, 37, 116, 37, 123, 49, 125, 37, 103, 97, 37, 43, 37, 80, 97, 37, 59, 37, 63, 37, 112, 49, 37, 112, 51, 37, 124, 37, 112, 54, 37, 124, 37, 116, 37, 123, 50, 125, 37, 103, 97, 37, 43, 37, 80, 97, 37, 59, 37, 63, 37, 112, 50, 37, 112, 54, 37, 124, 37, 116, 37, 123, 52, 125, 37, 103, 97, 37, 43, 37, 80, 97, 37, 59, 37, 63, 37, 112, 49, 37, 112, 53, 37, 124, 37, 116, 37, 123, 56, 125, 37, 103, 97, 37, 43, 37, 80, 97, 37, 59, 37, 63, 37, 112, 55, 37, 116, 37, 63, 37, 103, 97, 37, 116, 115, 37, 103, 97, 37, 39, 64, 39, 37, 43, 37, 101, 37, 39, 83, 39, 37, 59, 37, 101, 37, 63, 37, 103, 97, 37, 116, 37, 103, 97, 37, 39, 64, 39, 37, 43, 37, 101, 37, 39, 64, 39, 37, 59, 37, 59, 37, 99, 37, 63, 37, 112, 57, 37, 116, 14, 37, 101, 15, 37, 59, 0, 27, 49, 0, 9, 36, 60, 50, 62, 0, 50, 91, 51, 64, 52, 62, 53, 73, 57, 40, 58, 39, 74, 83, 75, 87, 76, 81, 77, 65, 79, 35, 80, 36, 81, 59, 82, 33, 83, 34, 84, 49, 85, 50, 86, 52, 87, 51, 88, 58, 89, 43, 90, 42, 100, 72, 106, 71, 107, 84, 108, 82, 109, 70, 110, 47, 113, 44, 116, 53, 117, 54, 118, 56, 119, 55, 120, 46, 0, 27, 38, 102, 50, 97, 37, 112, 49, 37, 100, 107, 37, 112, 50, 37, 108, 37, 80, 97, 37, 63, 37, 103, 97, 37, 116, 37, 103, 97, 37, 100, 37, 101, 49, 37, 59, 100, 48, 76, 37, 63, 37, 103, 97, 37, 33, 37, 116, 32, 37, 59, 37, 112, 50, 37, 115, 0, 27, 105, 0, 27, 38, 106, 66, 0, 27, 38, 106, 64, 0];

const FIX_VI300_OLD: &[u8] = &[26, 1, 66, 0, 14, 0, 3, 0, 153, 0, 246, 0, 118, 105, 51, 48, 48, 45, 111, 108, 100, 124, 86, 105, 115, 117, 97, 108, 32, 51, 48, 48, 32, 119, 105, 116, 104, 32, 111, 108, 100, 32, 102, 105, 114, 109, 119, 97, 114, 101, 32, 40, 115, 101, 116, 32, 101, 100, 105, 116, 32, 101, 120, 116, 101, 110, 116, 32, 114, 101, 118, 101, 114, 115, 101, 100, 41, 0, 1, 1, 0, 0, 1, 0, 0, 0, 0, 0, 0, 0, 0, 1, 80, 0, 255, 255, 24, 0, 0, 0, 4, 0, 6, 0, 255, 255, 255, 255, 8, 0, 16, 0, 20, 0, 255, 255, 255, 255, 24, 0, 41, 0, 45, 0, 255, 255, 49, 0, 255, 255, 255, 255, 51, 0, 255, 255, 55, 0, 255, 255, 59, 0, 68, 0, 255, 255, 255, 255, 255, 255, 255, 255, 255, 255, 255, 255, 255, 255, 255, 255, 72, 0, 255, 255, 255, 255, 255, 255, 77, 0, 82, 0, 255, 255, 255, 255, 87, 0, 255, 255, 255, 255, 91, 0, 96, 0, 100, 0, 255, 255, 255, 255, 255, 255, 255, 255, 104, 0, 255, 255, 255, 255, 255, 255, 149, 0, 255, 255, 255, 255, 255, 255, 255, 255, 255, 255, 255, 255, 255, 255, 153, 0, 255, 255, 255, 255, 255, 255, 255, 255, 157, 0, 255, 255, 163, 0, 169, 0, 175, 0, 181, 0, 187, 0, 193, 0, 199, 0, 205, 0, 211, 0, 255, 255, 255, 255, 215, 0, 255, 255, 255, 255, 255, 255, 219, 0, 255, 255, 255, 255, 255, 255, 223, 0, 255, 255, 255, 255, 255, 255, 255, 255, 255, 255, 255, 255, 255, 255, 255, 255, 255, 255, 255, 255, 255, 255, 255, 255, 255, 255, 255, 255, 255, 255, 255, 255, 255, 255, 255, 255, 255, 255, 255, 255, 255, 255, 255, 255, 255, 255, 255, 255, 255, 255, 255, 255, 255, 255, 255, 255, 255, 255, 255, 255, 255, 255, 255, 255, 255, 255, 255, 255, 255, 255, 255, 255, 255, 255, 255, 255, 255, 255, 255, 255, 255, 255, 227, 0, 229, 0, 255, 255, 255, 255, 255, 255, 232, 0, 255, 255, 255, 255, 255, 255, 255, 255, 255, 255, 255, 255, 255, 255, 255, 255, 255, 255, 255, 255, 255, 255, 255, 255, 255, 255, 255, 255, 255, 255, 255, 255, 234, 0, 240, 0, 27, 91, 90, 0, 7, 0, 13, 0, 27, 91, 72, 27, 91, 50, 74, 0, 27, 91, 75, 0, 27, 91, 74, 0, 27, 91, 37, 105, 37, 112, 49, 37, 100, 59, 37, 112, 50, 37, 100, 72, 0, 27, 91, 66, 0, 27, 91, 72, 0, 8, 0, 27, 91, 67, 0, 27, 91, 65, 0, 27, 91, 80, 36, 60, 52, 48, 62, 0, 27, 91, 77, 0, 27, 91, 52, 104, 0, 27, 91, 49, 109, 0, 27, 91, 52, 109, 0, 27, 91, 109, 0, 27, 91, 52, 108, 0, 27, 91, 109, 0, 27, 91, 109, 0, 27, 91, 55, 115, 27, 91, 50, 59, 51, 59, 52, 59, 50, 48, 59, 63, 53, 59, 63, 54, 108, 27, 91, 49, 50, 59, 63, 55, 104, 27, 91, 50, 81, 27, 91, 48, 59, 49, 40, 68, 27, 91, 56, 115, 0, 27, 91, 76, 0, 27, 91, 66, 0, 27, 95, 65, 27, 92, 0, 27, 95, 66, 27, 92, 0, 27, 95, 67, 27, 92, 0, 27, 95, 68, 27, 92, 0, 27, 95, 69, 27, 92, 0, 27, 95, 70, 27, 92, 0, 27, 95, 71, 27, 92, 0, 27, 95, 72, 27, 92, 0, 27, 95, 73, 27, 92, 0, 27, 91, 72, 0, 27, 91, 68, 0, 27, 91, 67, 0, 27, 91, 65, 0, 10, 0, 27, 77, 0, 9, 0, 27, 91, 63, 55, 104, 0, 27, 91, 63, 55, 108, 0];


const ROWS: [i32; 9] = [0, 1, 2, 3, 5, 8, 12, 18, 23];
const COLS: [i32; 17] = [0, 1, 2, 3, 4, 5, 6, 7, 8, 9, 10, 15, 20, 39, 40, 78, 79];

fn fixture(name: &str) -> &'static [u8] {
    match name {
        "xterm" => FIX_XTERM,
        "linux" => FIX_LINUX,
        "aixterm" => FIX_AIXTERM,
        "wy350-wvb" => FIX_WY350_WVB,
        "pmcons" => FIX_PMCONS,
        "ncr160wy60pp" => FIX_NCR160WY60PP,
        "apple2e" => FIX_APPLE2E,
        "hp2626-ns" => FIX_HP2626_NS,
        "vi300-old" => FIX_VI300_OLD,
        _ => panic!("no fixture {name}"),
    }
}

fn caps_from_fixture(name: &str) -> Caps {
    let t = Terminfo::parse(fixture(name)).expect("parse terminfo");
    Caps::from_terminfo(&t)
}

/// `from_terminfo` of a fixture must match the given reference profile across the whole grid.
fn assert_grid_matches(derived: &Caps, reference: &Caps) {
    let mut mismatches = 0;
    for &fy in &ROWS {
        for &fx in &COLS {
            for &ty in &ROWS {
                for &tx in &COLS {
                    let a = mvcur_caps(derived, (fy + 1, fx + 1), (ty + 1, tx + 1));
                    let b = mvcur_caps(reference, (fy + 1, fx + 1), (ty + 1, tx + 1));
                    if a != b {
                        mismatches += 1;
                        if mismatches <= 5 {
                            println!("({fy},{fx})->({ty},{tx}): derived={a:?} reference={b:?}");
                        }
                    }
                }
            }
        }
    }
    assert_eq!(
        mismatches, 0,
        "terminfo-derived caps diverged from the reference"
    );
}

#[test]
fn from_terminfo_xterm_matches_hardcoded() {
    // The xterm fixture, driven through from_terminfo, reproduces Caps::xterm() exactly -- the same
    // 23409-pair behaviour the live mvcur matrix pins.
    let derived = caps_from_fixture("xterm");
    assert_grid_matches(&derived, &Caps::xterm());
}

#[test]
fn from_terminfo_linux_matches_xterm() {
    // The Linux console shares xterm's cursor cap set (cup/hpa/vpa/cuf1/cub1/cuu1/home, cud1=\n),
    // so from_terminfo(linux) reproduces the same cursor motion as xterm.
    let derived = caps_from_fixture("linux");
    assert_grid_matches(&derived, &Caps::xterm());
}

#[test]
fn from_terminfo_aixterm_back_wraps() {
    // aixterm has auto_left_margin (bw) but no vpa: a target at the right margin is reached by a
    // backspace that wraps to the previous line's last column, then a vertical move. Captured from
    // real ncurses-on-aixterm.
    let c = caps_from_fixture("aixterm");
    // (2,0)->(0,79): from col 0, BS wraps to (1,79), cuu1 up to (0,79).
    assert_eq!(mvcur_caps(&c, (3, 1), (1, 80)), b"\x08\x1b[A");
    // (11,0)->(0,79): BS to (10,79), cuu 10.
    assert_eq!(mvcur_caps(&c, (12, 1), (1, 80)), b"\x08\x1b[10A");
    // (2,1)->(0,79): from col 1, CR first, then BS-wrap + cuu1.
    assert_eq!(mvcur_caps(&c, (3, 2), (1, 80)), b"\r\x08\x1b[A");
    // (2,0)->(11,79): BS to (1,79), cud 10 down.
    assert_eq!(mvcur_caps(&c, (3, 1), (12, 80)), b"\x08\x1b[10B");
}

#[test]
fn from_terminfo_wy350_uses_cursor_to_ll() {
    // wy350 has cursor_to_ll (ll = `\x1e\x0b`, jump to lower-left (23,0)); a last-line target is
    // reached via ll + cuf1 (`\x0c`) per column. Captured from real ncurses-on-wy350.
    let c = caps_from_fixture("wy350-wvb");
    // (any)->(23,0): ll alone.
    assert_eq!(mvcur_caps(&c, (1, 1), (24, 1)), b"\x1e\x0b");
    // (any)->(23,5): ll + 5 cuf1.
    assert_eq!(
        mvcur_caps(&c, (1, 1), (24, 6)),
        b"\x1e\x0b\x0c\x0c\x0c\x0c\x0c"
    );
}

#[test]
fn from_terminfo_cupless_uses_relative_motions() {
    // pmcons has no cup, no hpa: it can *only* move by local motions. ncurses gates the NOT_LOCAL
    // short-circuit on cup existing (lib_mvcur.c: the skip is nested inside the cup block), so even a
    // "far" move runs the relative optimizer rather than emitting nothing. Captured from real
    // ncurses-on-pmcons (cub1 = `\x08`, cuu1 = `\x0b`).
    let c = caps_from_fixture("pmcons");
    // (0,79)->(0,40): same row, 39 backspaces (a "far" move, but cup-less so still local).
    assert_eq!(mvcur_caps(&c, (1, 80), (1, 41)), vec![0x08u8; 39]);
    // (2,79)->(0,40): up 2 via cuu1 (`\x0b`), then 39 backspaces.
    let mut exp = vec![0x0bu8, 0x0b];
    exp.extend(std::iter::repeat(0x08u8).take(39));
    assert_eq!(mvcur_caps(&c, (3, 80), (1, 41)), exp);
}

#[test]
fn from_terminfo_newline_cud1_with_padding_is_unusable() {
    // ncr160wy60pp's cud1 is `\n$<5>` -- a newline (with padding). ncurses tests `*cursor_down !=
    // '\n'` (the first byte), so it is rejected for local downward motion exactly like a bare `\n`;
    // with no vpa, a downward move falls through to cup. Captured from real ncurses.
    let c = caps_from_fixture("ncr160wy60pp");
    // (0,0)->(2,0): cup (cud1=`\n$<5>` is rejected), NOT `\n\n`. cup = `\E=%p1' '+%c%p2' '+%c`.
    assert_eq!(mvcur_caps(&c, (1, 1), (3, 1)), b"\x1b=\x22\x20"); // \E= "(34=2+32) (32=0+32)
    assert_eq!(mvcur_caps(&c, (2, 2), (3, 2)), b"\x1b=\x22\x21"); // row2 col1 -> " !
}

#[test]
fn from_terminfo_bw_backwrap_to_inner_column() {
    // apple2e has bw (auto_left_margin), no xenl, no cup, cuu1=`\x1f`, no cuf1. ncurses tactic #5
    // back-wraps a cub1 at column 0 to the previous line's last column, then runs a *full*
    // relative_move from that corner to the target -- which need NOT be the right margin. Captured
    // from real ncurses-on-apple2e.
    let c = caps_from_fixture("apple2e");
    // (2,0)->(0,1): cub1 wrap to (1,79), cuu1 to (0,79), then 78 backspaces to col 1.
    let mut exp = vec![0x08u8, 0x1f];
    exp.extend(std::iter::repeat(0x08u8).take(78));
    assert_eq!(mvcur_caps(&c, (3, 1), (1, 2)), exp);
}

#[test]
fn from_terminfo_bw_backwrap_then_hpa() {
    // hp2626-ns has bw, no xenl, cup (padded), cuu1=`\EA`, hpa=`\E&a%p1%dC`. For (2,0)->(0,5) the
    // back-wrap leg (cub1 + cuu1) plus hpa to column 5 beats cup, so ncurses uses tactic #5 with the
    // relative leg ending in hpa -- not an all-backspace walk. Captured from real ncurses.
    let c = caps_from_fixture("hp2626-ns");
    // (2,0)->(0,5): \x08 (wrap) + \EA (cuu1) + \E&a5C (hpa col5).
    assert_eq!(mvcur_caps(&c, (3, 1), (1, 6)), b"\x08\x1bA\x1b&a5C");
}

#[test]
fn from_terminfo_xenl_disables_bw_back_wrap() {
    // vi300-old has auto_left_margin (bw) AND eat_newline_glitch (xenl). The magic margin makes the
    // bw back-wrap to the last column unreliable, so ncurses uses cup -- not the `\x08`-wrap that the
    // bw-without-xenl aixterm uses for the same move. Captured from real ncurses.
    let c = caps_from_fixture("vi300-old");
    assert_eq!(mvcur_caps(&c, (3, 1), (1, 80)), b"\x1b[1;80H"); // cup, not \x08\x1b[A
                                                                // Contrast: aixterm (bw, no xenl) does use the back-wrap.
    let a = caps_from_fixture("aixterm");
    assert_eq!(mvcur_caps(&a, (3, 1), (1, 80)), b"\x08\x1b[A");
}
