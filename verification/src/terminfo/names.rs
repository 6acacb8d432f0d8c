//! The capability tables in compiled-entry order: each kind is a table of (terminfo short
//! name, termcap code) pairs, and a name maps to exactly the index its value occupies in a
//! compiled terminfo entry. The last entries of each table are the obsolete termcap
//! capabilities (`OT*`).

use vstd::prelude::*;

verus! {

/// The boolean capabilities: (terminfo name, termcap code).
pub const BOOL_CAPS: [(&'static str, &'static str); 44] = [
    ("bw", "bw"), ("am", "am"), ("xsb", "xb"), ("xhp", "xs"), ("xenl", "xn"), ("eo", "eo"),
    ("gn", "gn"), ("hc", "hc"), ("km", "km"), ("hs", "hs"), ("in", "in"), ("da", "da"),
    ("db", "db"), ("mir", "mi"), ("msgr", "ms"), ("os", "os"), ("eslok", "es"), ("xt", "xt"),
    ("hz", "hz"), ("ul", "ul"), ("xon", "xo"), ("nxon", "nx"), ("mc5i", "5i"), ("chts", "HC"),
    ("nrrmc", "NR"), ("npc", "NP"), ("ndscr", "ND"), ("ccc", "cc"), ("bce", "ut"), ("hls", "hl"),
    ("xhpa", "YA"), ("crxm", "YB"), ("daisy", "YC"), ("xvpa", "YD"), ("sam", "YE"), ("cpix", "YF"),
    ("lpix", "YG"), ("OTbs", "bs"), ("OTns", "ns"), ("OTnc", "nc"), ("OTMT", "MT"), ("OTNL", "NL"),
    ("OTpt", "pt"), ("OTxr", "xr"),
];

/// The numeric capabilities: (terminfo name, termcap code).
pub const NUM_CAPS: [(&'static str, &'static str); 39] = [
    ("cols", "co"), ("it", "it"), ("lines", "li"), ("lm", "lm"), ("xmc", "sg"), ("pb", "pb"),
    ("vt", "vt"), ("wsl", "ws"), ("nlab", "Nl"), ("lh", "lh"), ("lw", "lw"), ("ma", "ma"),
    ("wnum", "MW"), ("colors", "Co"), ("pairs", "pa"), ("ncv", "NC"), ("bufsz", "Ya"),
    ("spinv", "Yb"), ("spinh", "Yc"), ("maddr", "Yd"), ("mjump", "Ye"), ("mcs", "Yf"),
    ("mls", "Yg"), ("npins", "Yh"), ("orc", "Yi"), ("orl", "Yj"), ("orhi", "Yk"), ("orvi", "Yl"),
    ("cps", "Ym"), ("widcs", "Yn"), ("btns", "BT"), ("bitwin", "Yo"), ("bitype", "Yp"),
    ("OTug", "ug"), ("OTdC", "dC"), ("OTdN", "dN"), ("OTdB", "dB"), ("OTdT", "dT"), ("OTkn", "kn"),
];

/// The string capabilities: (terminfo name, termcap code).
pub const STR_CAPS: [(&'static str, &'static str); 414] = [
    ("cbt", "bt"), ("bel", "bl"), ("cr", "cr"), ("csr", "cs"), ("tbc", "ct"), ("clear", "cl"),
    ("el", "ce"), ("ed", "cd"), ("hpa", "ch"), ("cmdch", "CC"), ("cup", "cm"), ("cud1", "do"),
    ("home", "ho"), ("civis", "vi"), ("cub1", "le"), ("mrcup", "CM"), ("cnorm", "ve"),
    ("cuf1", "nd"), ("ll", "ll"), ("cuu1", "up"), ("cvvis", "vs"), ("dch1", "dc"), ("dl1", "dl"),
    ("dsl", "ds"), ("hd", "hd"), ("smacs", "as"), ("blink", "mb"), ("bold", "md"), ("smcup", "ti"),
    ("smdc", "dm"), ("dim", "mh"), ("smir", "im"), ("invis", "mk"), ("prot", "mp"), ("rev", "mr"),
    ("smso", "so"), ("smul", "us"), ("ech", "ec"), ("rmacs", "ae"), ("sgr0", "me"), ("rmcup", "te"),
    ("rmdc", "ed"), ("rmir", "ei"), ("rmso", "se"), ("rmul", "ue"), ("flash", "vb"), ("ff", "ff"),
    ("fsl", "fs"), ("is1", "i1"), ("is2", "is"), ("is3", "i3"), ("if", "if"), ("ich1", "ic"),
    ("il1", "al"), ("ip", "ip"), ("kbs", "kb"), ("ktbc", "ka"), ("kclr", "kC"), ("kctab", "kt"),
    ("kdch1", "kD"), ("kdl1", "kL"), ("kcud1", "kd"), ("krmir", "kM"), ("kel", "kE"), ("ked", "kS"),
    ("kf0", "k0"), ("kf1", "k1"), ("kf10", "k;"), ("kf2", "k2"), ("kf3", "k3"), ("kf4", "k4"),
    ("kf5", "k5"), ("kf6", "k6"), ("kf7", "k7"), ("kf8", "k8"), ("kf9", "k9"), ("khome", "kh"),
    ("kich1", "kI"), ("kil1", "kA"), ("kcub1", "kl"), ("kll", "kH"), ("knp", "kN"), ("kpp", "kP"),
    ("kcuf1", "kr"), ("kind", "kF"), ("kri", "kR"), ("khts", "kT"), ("kcuu1", "ku"), ("rmkx", "ke"),
    ("smkx", "ks"), ("lf0", "l0"), ("lf1", "l1"), ("lf10", "la"), ("lf2", "l2"), ("lf3", "l3"),
    ("lf4", "l4"), ("lf5", "l5"), ("lf6", "l6"), ("lf7", "l7"), ("lf8", "l8"), ("lf9", "l9"),
    ("rmm", "mo"), ("smm", "mm"), ("nel", "nw"), ("pad", "pc"), ("dch", "DC"), ("dl", "DL"),
    ("cud", "DO"), ("ich", "IC"), ("indn", "SF"), ("il", "AL"), ("cub", "LE"), ("cuf", "RI"),
    ("rin", "SR"), ("cuu", "UP"), ("pfkey", "pk"), ("pfloc", "pl"), ("pfx", "px"), ("mc0", "ps"),
    ("mc4", "pf"), ("mc5", "po"), ("rep", "rp"), ("rs1", "r1"), ("rs2", "r2"), ("rs3", "r3"),
    ("rf", "rf"), ("rc", "rc"), ("vpa", "cv"), ("sc", "sc"), ("ind", "sf"), ("ri", "sr"),
    ("sgr", "sa"), ("hts", "st"), ("wind", "wi"), ("ht", "ta"), ("tsl", "ts"), ("uc", "uc"),
    ("hu", "hu"), ("iprog", "iP"), ("ka1", "K1"), ("ka3", "K3"), ("kb2", "K2"), ("kc1", "K4"),
    ("kc3", "K5"), ("mc5p", "pO"), ("rmp", "rP"), ("acsc", "ac"), ("pln", "pn"), ("kcbt", "kB"),
    ("smxon", "SX"), ("rmxon", "RX"), ("smam", "SA"), ("rmam", "RA"), ("xonc", "XN"),
    ("xoffc", "XF"), ("enacs", "eA"), ("smln", "LO"), ("rmln", "LF"), ("kbeg", "@1"),
    ("kcan", "@2"), ("kclo", "@3"), ("kcmd", "@4"), ("kcpy", "@5"), ("kcrt", "@6"), ("kend", "@7"),
    ("kent", "@8"), ("kext", "@9"), ("kfnd", "@0"), ("khlp", "%1"), ("kmrk", "%2"), ("kmsg", "%3"),
    ("kmov", "%4"), ("knxt", "%5"), ("kopn", "%6"), ("kopt", "%7"), ("kprv", "%8"), ("kprt", "%9"),
    ("krdo", "%0"), ("kref", "&1"), ("krfr", "&2"), ("krpl", "&3"), ("krst", "&4"), ("kres", "&5"),
    ("ksav", "&6"), ("kspd", "&7"), ("kund", "&8"), ("kBEG", "&9"), ("kCAN", "&0"), ("kCMD", "*1"),
    ("kCPY", "*2"), ("kCRT", "*3"), ("kDC", "*4"), ("kDL", "*5"), ("kslt", "*6"), ("kEND", "*7"),
    ("kEOL", "*8"), ("kEXT", "*9"), ("kFND", "*0"), ("kHLP", "#1"), ("kHOM", "#2"), ("kIC", "#3"),
    ("kLFT", "#4"), ("kMSG", "%a"), ("kMOV", "%b"), ("kNXT", "%c"), ("kOPT", "%d"), ("kPRV", "%e"),
    ("kPRT", "%f"), ("kRDO", "%g"), ("kRPL", "%h"), ("kRIT", "%i"), ("kRES", "%j"), ("kSAV", "!1"),
    ("kSPD", "!2"), ("kUND", "!3"), ("rfi", "RF"), ("kf11", "F1"), ("kf12", "F2"), ("kf13", "F3"),
    ("kf14", "F4"), ("kf15", "F5"), ("kf16", "F6"), ("kf17", "F7"), ("kf18", "F8"), ("kf19", "F9"),
    ("kf20", "FA"), ("kf21", "FB"), ("kf22", "FC"), ("kf23", "FD"), ("kf24", "FE"), ("kf25", "FF"),
    ("kf26", "FG"), ("kf27", "FH"), ("kf28", "FI"), ("kf29", "FJ"), ("kf30", "FK"), ("kf31", "FL"),
    ("kf32", "FM"), ("kf33", "FN"), ("kf34", "FO"), ("kf35", "FP"), ("kf36", "FQ"), ("kf37", "FR"),
    ("kf38", "FS"), ("kf39", "FT"), ("kf40", "FU"), ("kf41", "FV"), ("kf42", "FW"), ("kf43", "FX"),
    ("kf44", "FY"), ("kf45", "FZ"), ("kf46", "Fa"), ("kf47", "Fb"), ("kf48", "Fc"), ("kf49", "Fd"),
    ("kf50", "Fe"), ("kf51", "Ff"), ("kf52", "Fg"), ("kf53", "Fh"), ("kf54", "Fi"), ("kf55", "Fj"),
    ("kf56", "Fk"), ("kf57", "Fl"), ("kf58", "Fm"), ("kf59", "Fn"), ("kf60", "Fo"), ("kf61", "Fp"),
    ("kf62", "Fq"), ("kf63", "Fr"), ("el1", "cb"), ("mgc", "MC"), ("smgl", "ML"), ("smgr", "MR"),
    ("fln", "Lf"), ("sclk", "SC"), ("dclk", "DK"), ("rmclk", "RC"), ("cwin", "CW"), ("wingo", "WG"),
    ("hup", "HU"), ("dial", "DI"), ("qdial", "QD"), ("tone", "TO"), ("pulse", "PU"), ("hook", "fh"),
    ("pause", "PA"), ("wait", "WA"), ("u0", "u0"), ("u1", "u1"), ("u2", "u2"), ("u3", "u3"),
    ("u4", "u4"), ("u5", "u5"), ("u6", "u6"), ("u7", "u7"), ("u8", "u8"), ("u9", "u9"),
    ("op", "op"), ("oc", "oc"), ("initc", "Ic"), ("initp", "Ip"), ("scp", "sp"), ("setf", "Sf"),
    ("setb", "Sb"), ("cpi", "ZA"), ("lpi", "ZB"), ("chr", "ZC"), ("cvr", "ZD"), ("defc", "ZE"),
    ("swidm", "ZF"), ("sdrfq", "ZG"), ("sitm", "ZH"), ("slm", "ZI"), ("smicm", "ZJ"),
    ("snlq", "ZK"), ("snrmq", "ZL"), ("sshm", "ZM"), ("ssubm", "ZN"), ("ssupm", "ZO"),
    ("sum", "ZP"), ("rwidm", "ZQ"), ("ritm", "ZR"), ("rlm", "ZS"), ("rmicm", "ZT"), ("rshm", "ZU"),
    ("rsubm", "ZV"), ("rsupm", "ZW"), ("rum", "ZX"), ("mhpa", "ZY"), ("mcud1", "ZZ"),
    ("mcub1", "Za"), ("mcuf1", "Zb"), ("mvpa", "Zc"), ("mcuu1", "Zd"), ("porder", "Ze"),
    ("mcud", "Zf"), ("mcub", "Zg"), ("mcuf", "Zh"), ("mcuu", "Zi"), ("scs", "Zj"), ("smgb", "Zk"),
    ("smgbp", "Zl"), ("smglp", "Zm"), ("smgrp", "Zn"), ("smgt", "Zo"), ("smgtp", "Zp"),
    ("sbim", "Zq"), ("scsd", "Zr"), ("rbim", "Zs"), ("rcsd", "Zt"), ("subcs", "Zu"),
    ("supcs", "Zv"), ("docr", "Zw"), ("zerom", "Zx"), ("csnm", "Zy"), ("kmous", "Km"),
    ("minfo", "Mi"), ("reqmp", "RQ"), ("getm", "Gm"), ("setaf", "AF"), ("setab", "AB"),
    ("pfxl", "xl"), ("devt", "dv"), ("csin", "ci"), ("s0ds", "s0"), ("s1ds", "s1"), ("s2ds", "s2"),
    ("s3ds", "s3"), ("smglr", "ML"), ("smgtb", "MT"), ("birep", "Xy"), ("binel", "Zz"),
    ("bicr", "Yv"), ("colornm", "Yw"), ("defbi", "Yx"), ("endbi", "Yy"), ("setcolor", "Yz"),
    ("slines", "YZ"), ("dispc", "S1"), ("smpch", "S2"), ("rmpch", "S3"), ("smsc", "S4"),
    ("rmsc", "S5"), ("pctrm", "S6"), ("scesc", "S7"), ("scesa", "S8"), ("ehhlm", "Xh"),
    ("elhlm", "Xl"), ("elohlm", "Xo"), ("erhlm", "Xr"), ("ethlm", "Xt"), ("evhlm", "Xv"),
    ("sgr1", "sA"), ("slength", "YI"), ("OTi2", "i2"), ("OTrs", "rs"), ("OTnl", "nl"),
    ("OTbc", "bc"), ("OTko", "ko"), ("OTma", "ma"), ("OTG2", "G2"), ("OTG3", "G3"), ("OTG1", "G1"),
    ("OTG4", "G4"), ("OTGR", "GR"), ("OTGL", "GL"), ("OTGU", "GU"), ("OTGD", "GD"), ("OTGH", "GH"),
    ("OTGV", "GV"), ("OTGC", "GC"), ("meml", "ml"), ("memu", "mu"), ("box1", "bx"),
];

} // verus!
