# Overbrowsered

Overbrowsered opens links in the browser that was used last. It registers itself as a browser that
the user can choose as the default one, watches which browser has the focus, remembers it, and hands
each link to that browser. The choice itself is left to the user.

The library under `src/` is verified with [Verus](https://github.com/verus-lang/verus). It holds
what the program decides and computes; the program under `app/` reads and writes the files, the
registry, the windows and the processes that it decides about.

| module | what it holds |
| --- | --- |
| `messages`, `menu` | the words that the user sees, and the menu of the tray icon |
| `text`, `numbers`, `paths`, `encoding` | strings, numbers in text, file names, bytes as text |
| `desktop` | desktop entries, read with `freedesktop-desktop-entry` |
| `linux` | installed browsers, processes with the focus, the menu, opening links, registration |
| `windows` | installed browsers, windows in the foreground, the menu |
| `windows_open` | opening links, step by step |
| `windows_messages` | messages to the tray window, menu choices, single instance, restart |
| `windows_registration` | registry values |
| `linux_laws`, `windows_laws`, `windows_history` | what holds of the program as a whole |

`freedesktop-desktop-entry` is used without its feature `gettext`, so that the name and the
command of an entry depend on its file alone.
