//! The key tables: the printable name of each `KEY_*` code, and the terminfo key capability
//! bound to each code.

use vstd::prelude::*;

verus! {

/// `(code, name)` for every named `KEY_*` code, ascending.
pub const CODE_NAMES: [(i32, &'static str); 154] = [
    (257, "KEY_BREAK"), (258, "KEY_DOWN"), (259, "KEY_UP"), (260, "KEY_LEFT"),
    (261, "KEY_RIGHT"), (262, "KEY_HOME"), (263, "KEY_BACKSPACE"), (264, "KEY_F(0)"),
    (265, "KEY_F(1)"), (266, "KEY_F(2)"), (267, "KEY_F(3)"), (268, "KEY_F(4)"),
    (269, "KEY_F(5)"), (270, "KEY_F(6)"), (271, "KEY_F(7)"), (272, "KEY_F(8)"),
    (273, "KEY_F(9)"), (274, "KEY_F(10)"), (275, "KEY_F(11)"), (276, "KEY_F(12)"),
    (277, "KEY_F(13)"), (278, "KEY_F(14)"), (279, "KEY_F(15)"), (280, "KEY_F(16)"),
    (281, "KEY_F(17)"), (282, "KEY_F(18)"), (283, "KEY_F(19)"), (284, "KEY_F(20)"),
    (285, "KEY_F(21)"), (286, "KEY_F(22)"), (287, "KEY_F(23)"), (288, "KEY_F(24)"),
    (289, "KEY_F(25)"), (290, "KEY_F(26)"), (291, "KEY_F(27)"), (292, "KEY_F(28)"),
    (293, "KEY_F(29)"), (294, "KEY_F(30)"), (295, "KEY_F(31)"), (296, "KEY_F(32)"),
    (297, "KEY_F(33)"), (298, "KEY_F(34)"), (299, "KEY_F(35)"), (300, "KEY_F(36)"),
    (301, "KEY_F(37)"), (302, "KEY_F(38)"), (303, "KEY_F(39)"), (304, "KEY_F(40)"),
    (305, "KEY_F(41)"), (306, "KEY_F(42)"), (307, "KEY_F(43)"), (308, "KEY_F(44)"),
    (309, "KEY_F(45)"), (310, "KEY_F(46)"), (311, "KEY_F(47)"), (312, "KEY_F(48)"),
    (313, "KEY_F(49)"), (314, "KEY_F(50)"), (315, "KEY_F(51)"), (316, "KEY_F(52)"),
    (317, "KEY_F(53)"), (318, "KEY_F(54)"), (319, "KEY_F(55)"), (320, "KEY_F(56)"),
    (321, "KEY_F(57)"), (322, "KEY_F(58)"), (323, "KEY_F(59)"), (324, "KEY_F(60)"),
    (325, "KEY_F(61)"), (326, "KEY_F(62)"), (327, "KEY_F(63)"), (328, "KEY_DL"), (329, "KEY_IL"),
    (330, "KEY_DC"), (331, "KEY_IC"), (332, "KEY_EIC"), (333, "KEY_CLEAR"), (334, "KEY_EOS"),
    (335, "KEY_EOL"), (336, "KEY_SF"), (337, "KEY_SR"), (338, "KEY_NPAGE"), (339, "KEY_PPAGE"),
    (340, "KEY_STAB"), (341, "KEY_CTAB"), (342, "KEY_CATAB"), (343, "KEY_ENTER"),
    (344, "KEY_SRESET"), (345, "KEY_RESET"), (346, "KEY_PRINT"), (347, "KEY_LL"),
    (348, "KEY_A1"), (349, "KEY_A3"), (350, "KEY_B2"), (351, "KEY_C1"), (352, "KEY_C3"),
    (353, "KEY_BTAB"), (354, "KEY_BEG"), (355, "KEY_CANCEL"), (356, "KEY_CLOSE"),
    (357, "KEY_COMMAND"), (358, "KEY_COPY"), (359, "KEY_CREATE"), (360, "KEY_END"),
    (361, "KEY_EXIT"), (362, "KEY_FIND"), (363, "KEY_HELP"), (364, "KEY_MARK"),
    (365, "KEY_MESSAGE"), (366, "KEY_MOVE"), (367, "KEY_NEXT"), (368, "KEY_OPEN"),
    (369, "KEY_OPTIONS"), (370, "KEY_PREVIOUS"), (371, "KEY_REDO"), (372, "KEY_REFERENCE"),
    (373, "KEY_REFRESH"), (374, "KEY_REPLACE"), (375, "KEY_RESTART"), (376, "KEY_RESUME"),
    (377, "KEY_SAVE"), (378, "KEY_SBEG"), (379, "KEY_SCANCEL"), (380, "KEY_SCOMMAND"),
    (381, "KEY_SCOPY"), (382, "KEY_SCREATE"), (383, "KEY_SDC"), (384, "KEY_SDL"),
    (385, "KEY_SELECT"), (386, "KEY_SEND"), (387, "KEY_SEOL"), (388, "KEY_SEXIT"),
    (389, "KEY_SFIND"), (390, "KEY_SHELP"), (391, "KEY_SHOME"), (392, "KEY_SIC"),
    (393, "KEY_SLEFT"), (394, "KEY_SMESSAGE"), (395, "KEY_SMOVE"), (396, "KEY_SNEXT"),
    (397, "KEY_SOPTIONS"), (398, "KEY_SPREVIOUS"), (399, "KEY_SPRINT"), (400, "KEY_SREDO"),
    (401, "KEY_SREPLACE"), (402, "KEY_SRIGHT"), (403, "KEY_SRSUME"), (404, "KEY_SSAVE"),
    (405, "KEY_SSUSPEND"), (406, "KEY_SUNDO"), (407, "KEY_SUSPEND"), (408, "KEY_UNDO"),
    (409, "KEY_MOUSE"), (410, "KEY_RESIZE"),
];

/// `(capability, code)` for every terminfo key capability, in capability order.
pub const CAP_CODES: [(&'static str, i32); 149] = [
    ("kbs", 263), ("ktbc", 342), ("kclr", 333), ("kctab", 341), ("kdch1", 330), ("kdl1", 328),
    ("kcud1", 258), ("krmir", 332), ("kel", 335), ("ked", 334), ("kf0", 264), ("kf1", 265),
    ("kf10", 274), ("kf2", 266), ("kf3", 267), ("kf4", 268), ("kf5", 269), ("kf6", 270),
    ("kf7", 271), ("kf8", 272), ("kf9", 273), ("khome", 262), ("kich1", 331), ("kil1", 329),
    ("kcub1", 260), ("kll", 347), ("knp", 338), ("kpp", 339), ("kcuf1", 261), ("kind", 336),
    ("kri", 337), ("khts", 340), ("kcuu1", 259), ("ka1", 348), ("ka3", 349), ("kb2", 350),
    ("kc1", 351), ("kc3", 352), ("kcbt", 353), ("kbeg", 354), ("kcan", 355), ("kclo", 356),
    ("kcmd", 357), ("kcpy", 358), ("kcrt", 359), ("kend", 360), ("kent", 343), ("kext", 361),
    ("kfnd", 362), ("khlp", 363), ("kmrk", 364), ("kmsg", 365), ("kmov", 366), ("knxt", 367),
    ("kopn", 368), ("kopt", 369), ("kprv", 370), ("kprt", 346), ("krdo", 371), ("kref", 372),
    ("krfr", 373), ("krpl", 374), ("krst", 375), ("kres", 376), ("ksav", 377), ("kspd", 407),
    ("kund", 408), ("kBEG", 378), ("kCAN", 379), ("kCMD", 380), ("kCPY", 381), ("kCRT", 382),
    ("kDC", 383), ("kDL", 384), ("kslt", 385), ("kEND", 386), ("kEOL", 387), ("kEXT", 388),
    ("kFND", 389), ("kHLP", 390), ("kHOM", 391), ("kIC", 392), ("kLFT", 393), ("kMSG", 394),
    ("kMOV", 395), ("kNXT", 396), ("kOPT", 397), ("kPRV", 398), ("kPRT", 399), ("kRDO", 400),
    ("kRPL", 401), ("kRIT", 402), ("kRES", 403), ("kSAV", 404), ("kSPD", 405), ("kUND", 406),
    ("kf11", 275), ("kf12", 276), ("kf13", 277), ("kf14", 278), ("kf15", 279), ("kf16", 280),
    ("kf17", 281), ("kf18", 282), ("kf19", 283), ("kf20", 284), ("kf21", 285), ("kf22", 286),
    ("kf23", 287), ("kf24", 288), ("kf25", 289), ("kf26", 290), ("kf27", 291), ("kf28", 292),
    ("kf29", 293), ("kf30", 294), ("kf31", 295), ("kf32", 296), ("kf33", 297), ("kf34", 298),
    ("kf35", 299), ("kf36", 300), ("kf37", 301), ("kf38", 302), ("kf39", 303), ("kf40", 304),
    ("kf41", 305), ("kf42", 306), ("kf43", 307), ("kf44", 308), ("kf45", 309), ("kf46", 310),
    ("kf47", 311), ("kf48", 312), ("kf49", 313), ("kf50", 314), ("kf51", 315), ("kf52", 316),
    ("kf53", 317), ("kf54", 318), ("kf55", 319), ("kf56", 320), ("kf57", 321), ("kf58", 322),
    ("kf59", 323), ("kf60", 324), ("kf61", 325), ("kf62", 326), ("kf63", 327),
];

} // verus!
